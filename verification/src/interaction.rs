//! Effects of a player breaking or placing a block on the blocks of the world.
use vstd::prelude::*;

use crate::block_map::BlockMap;
use crate::blocks::{
    advance_block_breaking, break_time_spec, decide_block_placement, drops_spec, placement_spec,
    placement_target, BlockData, ItemId, ItemType, PlacementRefusal,
};
use crate::geometry::IVec3;

verus! {

/// What one tick of breaking did to the block looked at.
#[derive(Debug)]
pub enum BreakOutcome {
    /// There is no block at the position.
    NoBlock,
    /// The block took damage: its breaking progress is now the value.
    Damaged(u8),
    /// The block broke and was removed, dropping these items.
    Broken(Vec<(ItemId, u32)>),
}

/// One tick of a player breaking the block at `pos`: without a block nothing
/// happens; otherwise its breaking progress grows by one, and once that
/// reaches its break time the block is removed and its drops (for one drop)
/// are returned, while a block still standing keeps its new progress.
pub fn break_block_at(blocks: &mut BlockMap, pos: IVec3) -> (r: BreakOutcome)
    requires
        old(blocks).wf(),
        old(blocks)@.dom().contains(pos) ==> old(blocks)@[pos].breaking_progress < u8::MAX,
    ensures
        final(blocks).wf(),
        !old(blocks)@.dom().contains(pos) ==> r is NoBlock && final(blocks)@ == old(blocks)@,
        old(blocks)@.dom().contains(pos) ==> ({
            let b = old(blocks)@[pos];
            let progress = (b.breaking_progress + 1) as u8;
            if progress >= break_time_spec(b.id) {
                &&& final(blocks)@ == old(blocks)@.remove(pos)
                &&& r matches BreakOutcome::Broken(d) && d@ == drops_spec(b.id, 1)
            } else {
                &&& final(blocks)@ == old(blocks)@.insert(
                    pos,
                    BlockData { breaking_progress: progress, ..b },
                )
                &&& r == BreakOutcome::Damaged(progress)
            }
        }),
{
    match blocks.get(&pos) {
        None => BreakOutcome::NoBlock,
        Some(block) => {
            let mut block = block;
            let drops = advance_block_breaking(&mut block);
            match drops {
                Some(d) => {
                    blocks.remove(&pos);
                    BreakOutcome::Broken(d)
                },
                None => {
                    let progress = block.breaking_progress;
                    blocks.insert(pos, block);
                    BreakOutcome::Damaged(progress)
                },
            }
        },
    }
}

/// A player's attempt to place a block, given the block looked at and the
/// face hit (if any), what the caller measured (reach, overlap with the
/// player) and the selected hotbar slot with its item: the position across
/// the hit face counts as occupied when it holds a block; when the attempt
/// succeeds, the block is placed there.
pub fn place_block_step(
    blocks: &mut BlockMap,
    hit: Option<(IVec3, IVec3)>,
    within_reach: bool,
    collides_with_player: bool,
    hotbar_slot: u32,
    slot_item: Option<ItemType>,
) -> (r: Result<BlockData, PlacementRefusal>)
    requires
        old(blocks).wf(),
        hit matches Some((c, f)) ==> c.add_fits(f),
    ensures
        final(blocks).wf(),
        ({
            let target = match hit {
                Some((c, f)) => IVec3 { x: (c.x + f.x) as i32, y: (c.y + f.y) as i32, z: (c.z + f.z) as i32 },
                None => IVec3 { x: 0, y: 0, z: 0 },
            };
            let occupied = hit is Some && old(blocks)@.dom().contains(target);
            &&& r == placement_spec(
                hit is Some,
                within_reach,
                occupied,
                collides_with_player,
                hotbar_slot,
                slot_item,
            )
            &&& final(blocks)@ == (match r {
                Ok(b) => old(blocks)@.insert(target, b),
                Err(_) => old(blocks)@,
            })
        }),
{
    match hit {
        None => decide_block_placement(false, within_reach, false, collides_with_player, hotbar_slot, slot_item),
        Some((collision_pos, face)) => {
            let target = placement_target(collision_pos, face);
            let occupied = blocks.get(&target).is_some();
            let r = decide_block_placement(
                true,
                within_reach,
                occupied,
                collides_with_player,
                hotbar_slot,
                slot_item,
            );
            match r {
                Ok(b) => {
                    blocks.insert(target, b);
                },
                Err(_) => {},
            }
            r
        },
    }
}

} // verus!
