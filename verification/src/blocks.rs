//! Block kinds, their static properties and the items they drop.
use vstd::prelude::*;

use crate::geometry::IVec3;
use crate::rng::random_below;

verus! {

/// Marker for the numerical enums that identify kinds of game elements
/// (blocks, items, ...), used as keys in texture atlases and tables.
pub trait GameElementId: core::hash::Hash + Eq + PartialEq + Copy + Clone + Default + core::fmt::Debug {

}

/// Kinds of items that can be held in an inventory.
#[derive(Debug, Clone, Copy, PartialEq, Eq, Structural, Hash, PartialOrd, Ord)]
pub enum ItemId {
    Dirt,
    Cobblestone,
    OakLog,
    OakPlanks,
    Sand,
    Cactus,
    Ice,
    Dandelion,
    Poppy,
    TallGrass,
    Snowball,
    SpruceLog,
}

impl Default for ItemId {
    fn default() -> (r: Self)
        ensures
            r == ItemId::Dirt,
    {
        ItemId::Dirt
    }
}

impl GameElementId for ItemId {

}

/// Broad category of an item.
#[derive(Debug, Clone, Copy, PartialEq, Eq, Structural, Hash)]
pub enum ItemType {
    /// An item that places the given block.
    Block(BlockId),
}

impl Default for ItemType {
    fn default() -> (r: Self)
        ensures
            r == ItemType::Block(BlockId::Dirt),
    {
        ItemType::Block(BlockId::Dirt)
    }
}

/// Kinds of blocks in the world.
#[derive(Debug, Clone, Copy, PartialEq, Eq, Structural, Hash, PartialOrd, Ord)]
pub enum BlockId {
    Dirt,
    Debug,
    Grass,
    Stone,
    OakLog,
    OakPlanks,
    OakLeaves,
    Sand,
    Cactus,
    Ice,
    Glass,
    Bedrock,
    Dandelion,
    Poppy,
    TallGrass,
    Cobblestone,
    Snow,
    SpruceLeaves,
    SpruceLog,
    Water,
}

impl Default for BlockId {
    fn default() -> (r: Self)
        ensures
            r == BlockId::Dirt,
    {
        BlockId::Dirt
    }
}

impl GameElementId for BlockId {

}

/// Horizontal orientation of a placed block.
#[derive(Debug, Clone, Copy, PartialEq, Eq, Structural)]
pub enum BlockDirection {
    Front,
    Right,
    Back,
    Left,
}

/// Tags describing a block kind.
#[derive(Debug, Clone, Copy, PartialEq, Eq, Structural)]
pub enum BlockTags {
    Solid,
    Stone,
}

/// How a block lets light and sight through.
#[derive(Debug, Clone, Copy, PartialEq, Eq, Structural)]
pub enum BlockTransparency {
    Transparent,
    Liquid,
    Solid,
    Decoration,
}

/// Axis-aligned boxes smaller than a block, by name; their extents in block
/// units are given by `HitboxShape::center_and_half_size_tenths`.
#[derive(Debug, Clone, Copy, PartialEq, Eq, Structural)]
pub enum HitboxShape {
    /// Box of a short flower: centre (0.5, 0.3, 0.5), half size (0.3, 0.3, 0.3).
    ShortFlower,
}

impl HitboxShape {
    /// Centre and half size of the box, in tenths of a block.
    pub fn center_and_half_size_tenths(&self) -> (r: ([u8; 3], [u8; 3]))
        ensures
            r.0@ == seq![5u8, 3u8, 5u8],
            r.1@ == seq![3u8, 3u8, 3u8],
    {
        match self {
            HitboxShape::ShortFlower => ([5, 3, 5], [3, 3, 3]),
        }
    }
}

/// Shape used for collisions and ray casts against a block.
#[derive(Debug, Clone, Copy, PartialEq, Eq, Structural)]
pub enum BlockHitbox {
    /// The whole unit cube.
    FullBlock,
    /// A box smaller than the block.
    Aabb(HitboxShape),
    /// Nothing to hit.
    Empty,
}

/// How likely an item is to drop, and how many of it.
#[derive(Clone, Copy)]
struct DropStatistics {
    relative_chance: u32,
    corresponding_item: ItemId,
    base_number: u32,
}

impl DropStatistics {
    fn with_base_chance(corresponding_item: ItemId) -> (r: Self)
        ensures
            r.relative_chance == 1,
            r.corresponding_item == corresponding_item,
            r.base_number == 1,
    {
        DropStatistics { relative_chance: 1, corresponding_item, base_number: 1 }
    }

    fn as_vector(&self) -> (r: Vec<(u32, ItemId, u32)>)
        ensures
            r@ == seq![(self.relative_chance, self.corresponding_item, self.base_number)],
    {
        vec![(self.relative_chance, self.corresponding_item, self.base_number)]
    }
}

#[derive(Clone, Copy)]
enum Hitbox {
    /// Only used for ray casts: players walk through the block.
    Pathable { ray_hitbox: BlockHitbox },
    /// Used both for collisions with players and for ray casts.
    Solid { collision_hitbox: BlockHitbox },
}

#[derive(Clone, Copy)]
struct BlockBreakability {
    break_time: u8,
    drop_table: Option<DropStatistics>,
}

#[derive(Clone, Copy)]
struct BlockProperties {
    hitbox: Hitbox,
    visibility: BlockTransparency,
    breakability: Option<BlockBreakability>,
}

impl BlockProperties {
    fn full_solid_block(break_time: u8, drop_table: Option<DropStatistics>) -> (r: Self)
        ensures
            r.hitbox == (Hitbox::Solid { collision_hitbox: BlockHitbox::FullBlock }),
            r.visibility == BlockTransparency::Solid,
            r.breakability == Some(BlockBreakability { break_time, drop_table }),
    {
        BlockProperties {
            hitbox: Hitbox::Solid { collision_hitbox: BlockHitbox::FullBlock },
            visibility: BlockTransparency::Solid,
            breakability: Some(BlockBreakability { break_time, drop_table }),
        }
    }

    fn full_solid_block_with_multiple_drops(
        break_time: u8,
        corresponding_item: ItemId,
        number_of_items: u32,
    ) -> (r: Self)
        ensures
            r.hitbox == (Hitbox::Solid { collision_hitbox: BlockHitbox::FullBlock }),
            r.visibility == BlockTransparency::Solid,
            r.breakability == Some(
                BlockBreakability {
                    break_time,
                    drop_table: Some(
                        DropStatistics {
                            relative_chance: 1,
                            corresponding_item,
                            base_number: number_of_items,
                        },
                    ),
                },
            ),
    {
        BlockProperties::full_solid_block(
            break_time,
            Some(
                DropStatistics {
                    relative_chance: 1,
                    corresponding_item,
                    base_number: number_of_items,
                },
            ),
        )
    }

    fn full_solid_base_block(break_time: u8, corresponding_item: ItemId) -> (r: Self)
        ensures
            r.hitbox == (Hitbox::Solid { collision_hitbox: BlockHitbox::FullBlock }),
            r.visibility == BlockTransparency::Solid,
            r.breakability == Some(
                BlockBreakability {
                    break_time,
                    drop_table: Some(
                        DropStatistics { relative_chance: 1, corresponding_item, base_number: 1 },
                    ),
                },
            ),
    {
        BlockProperties::full_solid_block(
            break_time,
            Some(DropStatistics::with_base_chance(corresponding_item)),
        )
    }

    fn decoration_base_block(break_time: u8, shape: HitboxShape, corresponding_item: ItemId) -> (r:
        Self)
        ensures
            r.hitbox == (Hitbox::Pathable { ray_hitbox: BlockHitbox::Aabb(shape) }),
            r.visibility == BlockTransparency::Decoration,
            r.breakability == Some(
                BlockBreakability {
                    break_time,
                    drop_table: Some(
                        DropStatistics { relative_chance: 1, corresponding_item, base_number: 1 },
                    ),
                },
            ),
    {
        BlockProperties {
            breakability: Some(
                BlockBreakability {
                    break_time,
                    drop_table: Some(DropStatistics::with_base_chance(corresponding_item)),
                },
            ),
            hitbox: Hitbox::Pathable { ray_hitbox: BlockHitbox::Aabb(shape) },
            visibility: BlockTransparency::Decoration,
        }
    }

    fn full_transparent_block(break_time: u8, drop_table: Option<DropStatistics>) -> (r: Self)
        ensures
            r.hitbox == (Hitbox::Solid { collision_hitbox: BlockHitbox::FullBlock }),
            r.visibility == BlockTransparency::Transparent,
            r.breakability == Some(BlockBreakability { break_time, drop_table }),
    {
        BlockProperties {
            hitbox: Hitbox::Solid { collision_hitbox: BlockHitbox::FullBlock },
            visibility: BlockTransparency::Transparent,
            breakability: Some(BlockBreakability { break_time, drop_table }),
        }
    }
}

/// Number of ticks needed to break a block (255 for blocks that cannot be broken).
pub open spec fn break_time_spec(b: BlockId) -> u8 {
    match b {
        BlockId::Debug => 42,
        BlockId::Dirt => 30,
        BlockId::Grass => 36,
        BlockId::Stone => 60,
        BlockId::OakLog => 60,
        BlockId::OakPlanks => 60,
        BlockId::OakLeaves => 12,
        BlockId::Sand => 30,
        BlockId::Cactus => 24,
        BlockId::Ice => 30,
        BlockId::Glass => 18,
        BlockId::Bedrock => 255,
        BlockId::Dandelion => 6,
        BlockId::Poppy => 6,
        BlockId::TallGrass => 6,
        BlockId::Cobblestone => 12,
        BlockId::Snow => 54,
        BlockId::SpruceLeaves => 12,
        BlockId::SpruceLog => 60,
        BlockId::Water => 255,
    }
}

/// The item a broken block drops and how many of it per drop, if it drops anything.
pub open spec fn drop_spec(b: BlockId) -> Option<(ItemId, u32)> {
    match b {
        BlockId::Dirt => Some((ItemId::Dirt, 1)),
        BlockId::Grass => Some((ItemId::Dirt, 1)),
        BlockId::Stone => Some((ItemId::Cobblestone, 1)),
        BlockId::OakLog => Some((ItemId::OakLog, 1)),
        BlockId::OakPlanks => Some((ItemId::OakPlanks, 1)),
        BlockId::Sand => Some((ItemId::Sand, 1)),
        BlockId::Cactus => Some((ItemId::Cactus, 1)),
        BlockId::Ice => Some((ItemId::Ice, 1)),
        BlockId::Dandelion => Some((ItemId::Dandelion, 1)),
        BlockId::Poppy => Some((ItemId::Poppy, 1)),
        BlockId::TallGrass => Some((ItemId::TallGrass, 1)),
        BlockId::Snow => Some((ItemId::Snowball, 4)),
        BlockId::SpruceLog => Some((ItemId::SpruceLog, 1)),
        _ => None,
    }
}

/// The drop table of a block: one entry `(relative chance, item, count)` or none.
pub open spec fn drop_table_spec(b: BlockId) -> Seq<(u32, ItemId, u32)> {
    match drop_spec(b) {
        Some((item, n)) => seq![(1u32, item, n)],
        None => seq![],
    }
}

/// How a block is seen.
pub open spec fn visibility_spec(b: BlockId) -> BlockTransparency {
    match b {
        BlockId::OakLeaves | BlockId::Glass | BlockId::SpruceLeaves => BlockTransparency::Transparent,
        BlockId::Dandelion | BlockId::Poppy | BlockId::TallGrass => BlockTransparency::Decoration,
        BlockId::Water => BlockTransparency::Liquid,
        _ => BlockTransparency::Solid,
    }
}

/// The shape used for collisions and ray casts against a block.
pub open spec fn hitbox_spec(b: BlockId) -> BlockHitbox {
    match b {
        BlockId::Dandelion | BlockId::Poppy | BlockId::TallGrass => BlockHitbox::Aabb(
            HitboxShape::ShortFlower,
        ),
        BlockId::Water => BlockHitbox::Empty,
        _ => BlockHitbox::FullBlock,
    }
}

/// Tags of a block: stone is both stone and solid, every other block is solid.
pub open spec fn tags_spec(b: BlockId) -> Seq<BlockTags> {
    match b {
        BlockId::Stone => seq![BlockTags::Stone, BlockTags::Solid],
        _ => seq![BlockTags::Solid],
    }
}

/// The items dropped when a block drops `nb_drops` times: the block's drop
/// item with its count multiplied by `nb_drops`, or nothing.
pub open spec fn drops_spec(b: BlockId, nb_drops: nat) -> Seq<(ItemId, u32)> {
    match drop_spec(b) {
        Some((item, n)) => if nb_drops == 0 {
            seq![]
        } else {
            seq![(item, (n * nb_drops) as u32)]
        },
        None => seq![],
    }
}

impl BlockId {
    fn properties(&self) -> (r: Option<BlockProperties>)
        ensures
            r is None <==> *self == BlockId::Debug,
            r matches Some(p) ==> {
                &&& p.visibility == visibility_spec(*self)
                &&& (match p.hitbox {
                    Hitbox::Pathable { ray_hitbox } => ray_hitbox,
                    Hitbox::Solid { collision_hitbox } => collision_hitbox,
                }) == hitbox_spec(*self)
                &&& (match p.breakability {
                    Some(b) => b.break_time,
                    None => 255u8,
                }) == break_time_spec(*self)
                &&& (match p.breakability {
                    Some(b) => match b.drop_table {
                        Some(d) => Some((d.corresponding_item, d.base_number)),
                        None => None,
                    },
                    None => None,
                }) == drop_spec(*self)
                &&& (match p.breakability {
                    Some(b) => match b.drop_table {
                        Some(d) => d.relative_chance == 1,
                        None => true,
                    },
                    None => true,
                })
            },
    {
        match self {
            BlockId::Dirt => Some(BlockProperties::full_solid_base_block(30, ItemId::Dirt)),
            BlockId::Grass => Some(BlockProperties::full_solid_base_block(36, ItemId::Dirt)),
            BlockId::Stone => Some(BlockProperties::full_solid_base_block(60, ItemId::Cobblestone)),
            BlockId::OakLog => Some(BlockProperties::full_solid_base_block(60, ItemId::OakLog)),
            BlockId::OakPlanks => Some(BlockProperties::full_solid_base_block(60, ItemId::OakPlanks)),
            BlockId::OakLeaves => Some(BlockProperties::full_transparent_block(12, None)),
            BlockId::Sand => Some(BlockProperties::full_solid_base_block(30, ItemId::Sand)),
            BlockId::Cactus => Some(BlockProperties::full_solid_base_block(24, ItemId::Cactus)),
            BlockId::Ice => Some(BlockProperties::full_solid_base_block(30, ItemId::Ice)),
            BlockId::Glass => Some(BlockProperties::full_transparent_block(18, None)),
            BlockId::Bedrock => Some(
                BlockProperties {
                    breakability: None,
                    hitbox: Hitbox::Solid { collision_hitbox: BlockHitbox::FullBlock },
                    visibility: BlockTransparency::Solid,
                },
            ),
            BlockId::Dandelion => Some(
                BlockProperties::decoration_base_block(6, HitboxShape::ShortFlower, ItemId::Dandelion),
            ),
            BlockId::Poppy => Some(
                BlockProperties::decoration_base_block(6, HitboxShape::ShortFlower, ItemId::Poppy),
            ),
            BlockId::TallGrass => Some(
                BlockProperties::decoration_base_block(6, HitboxShape::ShortFlower, ItemId::TallGrass),
            ),
            BlockId::Cobblestone => Some(BlockProperties::full_solid_block(12, None)),
            BlockId::Snow => Some(
                BlockProperties::full_solid_block_with_multiple_drops(54, ItemId::Snowball, 4),
            ),
            BlockId::SpruceLeaves => Some(BlockProperties::full_transparent_block(12, None)),
            BlockId::SpruceLog => Some(BlockProperties::full_solid_base_block(60, ItemId::SpruceLog)),
            BlockId::Water => Some(
                BlockProperties {
                    breakability: None,
                    hitbox: Hitbox::Pathable { ray_hitbox: BlockHitbox::Empty },
                    visibility: BlockTransparency::Liquid,
                },
            ),
            BlockId::Debug => None,
        }
    }

    /// Shape used for collisions and ray casts against this block.
    pub fn get_hitbox(&self) -> (r: BlockHitbox)
        ensures
            r == hitbox_spec(*self),
    {
        match *self {
            BlockId::Debug => BlockHitbox::FullBlock,
            _ => match self.properties() {
                Some(BlockProperties { hitbox, .. }) => match hitbox {
                    Hitbox::Pathable { ray_hitbox } => ray_hitbox,
                    Hitbox::Solid { collision_hitbox } => collision_hitbox,
                },
                None => BlockHitbox::FullBlock,
            },
        }
    }

    /// Shape used for ray casts against this block; the same as `get_hitbox`.
    pub fn get_ray_hitbox(&self) -> (r: BlockHitbox)
        ensures
            r == hitbox_spec(*self),
    {
        BlockId::get_hitbox(self)
    }

    /// Number of ticks needed to break this block (255 when it cannot be broken).
    pub fn get_break_time(&self) -> (r: u8)
        ensures
            r == break_time_spec(*self),
    {
        match *self {
            BlockId::Debug => 42,
            _ => match self.properties() {
                Some(props) => match props.breakability {
                    Some(b) => b.break_time,
                    None => 255,
                },
                None => 255,
            },
        }
    }

    /// Drop table of this block: `(relative chance, item, count)` entries.
    pub fn get_drop_table(&self) -> (r: Vec<(u32, ItemId, u32)>)
        ensures
            r@ == drop_table_spec(*self),
    {
        match self.properties() {
            Some(props) => match props.breakability {
                Some(breakability) => match breakability.drop_table {
                    Some(drop_table) => drop_table.as_vector(),
                    None => Vec::new(),
                },
                None => Vec::new(),
            },
            None => Vec::new(),
        }
    }

    /// Items dropped when this block drops `nb_drops` times, each item once with its count.
    pub fn get_drops(&self, nb_drops: u32) -> (r: Vec<(ItemId, u32)>)
        requires
            drop_spec(*self) matches Some((item, n)) ==> n * nb_drops <= u32::MAX,
        ensures
            r@ == drops_spec(*self, nb_drops as nat),
    {
        let mut drops: Vec<(ItemId, u32)> = Vec::new();
        let table = self.get_drop_table();

        if table.len() == 0 {
            return drops;
        }
        let total: u32 = table[0].0;
        let ghost entry = table@[0];
        let mut k: u32 = 0;
        while k < nb_drops
            invariant
                table@ == drop_table_spec(*self),
                table@.len() == 1,
                entry == table@[0],
                total == 1,
                k <= nb_drops,
                entry.2 * nb_drops <= u32::MAX,
                drops@ == (if k == 0 {
                    seq![]
                } else {
                    seq![(entry.1, (entry.2 * k) as u32)]
                }),
            decreases nb_drops - k,
        {
            let mut nb = random_below(total);
            let mut j: usize = 0;
            while j < table.len()
                invariant
                    table@.len() == 1,
                    entry == table@[0],
                    entry.0 == 1,
                    nb < 1,
                    j <= 1,
                    k < nb_drops,
                    entry.2 * nb_drops <= u32::MAX,
                    drops@ == (if k + j == 0 {
                        seq![]
                    } else {
                        seq![(entry.1, (entry.2 * (k + j)) as u32)]
                    }),
                decreases table.len() - j,
            {
                let item = table[j];
                if nb < item.0 {
                    let mut i: usize = 0;
                    while i < drops.len() && drops[i].0 != item.1
                        invariant
                            i <= drops@.len(),
                            forall|t: int| 0 <= t < i ==> drops@[t].0 != item.1,
                            item == entry,
                            drops@ == (if k == 0 {
                                seq![]
                            } else {
                                seq![(entry.1, (entry.2 * k) as u32)]
                            }),
                        decreases drops.len() - i,
                    {
                        i += 1;
                    }
                    assert(j == 0);
                    assert(item == entry);
                    assert(entry.2 * (k + 1) <= u32::MAX) by (nonlinear_arith)
                        requires
                            entry.2 * nb_drops <= u32::MAX,
                            k < nb_drops,
                    ;
                    assert(entry.2 * (k + 1) == entry.2 * k + entry.2) by (nonlinear_arith);
                    assert(0 <= entry.2 * k) by (nonlinear_arith);
                    assert(k == 0 ==> entry.2 * k == 0) by (nonlinear_arith);
                    if i < drops.len() {
                        assert(k > 0);
                        assert(drops@.len() == 1);
                        assert(i == 0);
                        assert(drops@[0].1 == entry.2 * k);
                        let updated = drops[i].1 + item.2;
                        drops.set(i, (item.1, updated));
                        assert(updated == entry.2 * (k + 1));
                    } else {
                        if k > 0 {
                            assert(drops@[0].0 == item.1);
                        }
                        assert(drops@.len() == 0);
                        drops.push((item.1, item.2));
                        assert(item.2 == entry.2 * (k + 1));
                    }
                    assert(drops@ =~= seq![(entry.1, (entry.2 * (k + 1)) as u32)]);
                } else {
                    nb -= item.0;
                }
                j += 1;
            }
            k += 1;
        }
        drops
    }

    /// Tags of this block.
    pub fn get_tags(&self) -> (r: Vec<BlockTags>)
        ensures
            r@ == tags_spec(*self),
    {
        match *self {
            BlockId::Stone => vec![BlockTags::Stone, BlockTags::Solid],
            _ => vec![BlockTags::Solid],
        }
    }

    /// How this block is seen.
    pub fn get_visibility(&self) -> (r: BlockTransparency)
        ensures
            r == visibility_spec(*self),
    {
        match *self {
            BlockId::Debug => BlockTransparency::Solid,
            _ => match self.properties() {
                Some(BlockProperties { visibility, .. }) => visibility,
                None => BlockTransparency::Solid,
            },
        }
    }
}

/// Data associated with a placed block.
#[derive(Debug, Clone, Copy, PartialEq, Eq, Structural)]
pub struct BlockData {
    pub id: BlockId,
    pub direction: BlockDirection,
    pub breaking_progress: u8,
}

impl BlockData {
    /// A freshly placed block with no breaking progress.
    pub fn new(id: BlockId, direction: BlockDirection) -> (r: Self)
        ensures
            r.id == id,
            r.direction == direction,
            r.breaking_progress == 0,
    {
        BlockData { id, direction, breaking_progress: 0 }
    }

    /// Breaking stage shown to players: `breaking_progress * 10 / break_time`,
    /// truncated to a byte.
    pub fn get_breaking_level(&self) -> (r: u8)
        ensures
            r == (((self.breaking_progress as int) * 10) / (break_time_spec(self.id) as int)) as u8,
    {
        let t = self.id.get_break_time();
        ((self.breaking_progress as u16 * 10) / t as u16) as u8
    }
}

/// One more tick of a player breaking a block: the block's progress grows
/// by one; once it reaches the block's break time the block is destroyed
/// and the items it drops (for one drop) are returned.
pub fn advance_block_breaking(block: &mut BlockData) -> (r: Option<Vec<(ItemId, u32)>>)
    requires
        old(block).breaking_progress < u8::MAX,
    ensures
        final(block).id == old(block).id,
        final(block).direction == old(block).direction,
        final(block).breaking_progress == old(block).breaking_progress + 1,
        r is Some <==> final(block).breaking_progress >= break_time_spec(old(block).id),
        r matches Some(d) ==> d@ == drops_spec(old(block).id, 1),
{
    block.breaking_progress = block.breaking_progress + 1;
    let destroyed = block.breaking_progress >= block.id.get_break_time();
    if destroyed {
        Some(block.id.get_drops(1))
    } else {
        None
    }
}

/// Number of inventory slots of a player.
pub const MAX_INVENTORY_SLOTS: u32 = 36;

/// Why a player's attempt to place a block is refused.
#[derive(Debug, Clone, Copy, PartialEq, Eq, Structural)]
pub enum PlacementRefusal {
    /// The player looks at no block.
    NoTarget,
    /// The block looked at is beyond interaction distance.
    TooFar,
    /// A block already occupies the position to fill.
    Occupied,
    /// The new block would overlap the player.
    CollidesWithPlayer,
    /// The selected hotbar slot is not an inventory slot.
    InvalidSlot,
    /// The selected slot holds nothing.
    EmptySlot,
}

/// Position a placed block fills: next to the block looked at, across the
/// face that was hit.
pub fn placement_target(collision_pos: IVec3, face: IVec3) -> (r: IVec3)
    requires
        collision_pos.add_fits(face),
    ensures
        r.x == collision_pos.x + face.x,
        r.y == collision_pos.y + face.y,
        r.z == collision_pos.z + face.z,
{
    collision_pos.add(face)
}

/// The outcome of a placement attempt, the checks taken in this order: a
/// block is looked at, it is within reach, the position to fill is free, the
/// new block would not overlap the player, the hotbar slot is an inventory
/// slot, and that slot holds an item; the block placed is that item's block,
/// facing front.
pub open spec fn placement_spec(
    hit_found: bool,
    within_reach: bool,
    target_occupied: bool,
    collides_with_player: bool,
    hotbar_slot: u32,
    slot_item: Option<ItemType>,
) -> Result<BlockData, PlacementRefusal> {
    if !hit_found {
        Err(PlacementRefusal::NoTarget)
    } else if !within_reach {
        Err(PlacementRefusal::TooFar)
    } else if target_occupied {
        Err(PlacementRefusal::Occupied)
    } else if collides_with_player {
        Err(PlacementRefusal::CollidesWithPlayer)
    } else if hotbar_slot >= MAX_INVENTORY_SLOTS {
        Err(PlacementRefusal::InvalidSlot)
    } else {
        match slot_item {
            None => Err(PlacementRefusal::EmptySlot),
            Some(ItemType::Block(id)) => Ok(
                BlockData { id, direction: BlockDirection::Front, breaking_progress: 0 },
            ),
        }
    }
}

/// Decides a player's attempt to place a block from what the caller measured
/// (whether a block is looked at, whether it is within reach, whether the
/// position to fill is taken, whether the new block would overlap the
/// player) and the selected hotbar slot with the item it holds.
pub fn decide_block_placement(
    hit_found: bool,
    within_reach: bool,
    target_occupied: bool,
    collides_with_player: bool,
    hotbar_slot: u32,
    slot_item: Option<ItemType>,
) -> (r: Result<BlockData, PlacementRefusal>)
    ensures
        r == placement_spec(
            hit_found,
            within_reach,
            target_occupied,
            collides_with_player,
            hotbar_slot,
            slot_item,
        ),
{
    if !hit_found {
        return Err(PlacementRefusal::NoTarget);
    }
    if !within_reach {
        return Err(PlacementRefusal::TooFar);
    }
    if target_occupied {
        return Err(PlacementRefusal::Occupied);
    }
    if collides_with_player {
        return Err(PlacementRefusal::CollidesWithPlayer);
    }
    if hotbar_slot >= MAX_INVENTORY_SLOTS {
        return Err(PlacementRefusal::InvalidSlot);
    }
    match slot_item {
        None => Err(PlacementRefusal::EmptySlot),
        Some(ItemType::Block(block_id)) => Ok(BlockData::new(block_id, BlockDirection::Front)),
    }
}

/// Every kind of block takes at least six ticks of breaking, so no block
/// breaks on the first tick.
pub proof fn lemma_break_time_positive(b: BlockId)
    ensures
        break_time_spec(b) >= 6,
{
}

/// The item that bears the same name as a block, if there is one.
pub open spec fn same_named_item(b: BlockId) -> Option<ItemId> {
    match b {
        BlockId::Dirt => Some(ItemId::Dirt),
        BlockId::OakLog => Some(ItemId::OakLog),
        BlockId::OakPlanks => Some(ItemId::OakPlanks),
        BlockId::Sand => Some(ItemId::Sand),
        BlockId::Cactus => Some(ItemId::Cactus),
        BlockId::Ice => Some(ItemId::Ice),
        BlockId::Dandelion => Some(ItemId::Dandelion),
        BlockId::Poppy => Some(ItemId::Poppy),
        BlockId::TallGrass => Some(ItemId::TallGrass),
        BlockId::Cobblestone => Some(ItemId::Cobblestone),
        BlockId::SpruceLog => Some(ItemId::SpruceLog),
        _ => None,
    }
}

/// A broken block gives back its own item: a block that has an item of the
/// same name drops exactly one of that item per drop, and nothing else
/// (cobblestone, which has no drop table, drops nothing). Grass drops what
/// dirt drops, and stone drops one cobblestone.
pub proof fn lemma_blocks_drop_their_own_item(b: BlockId, nb_drops: nat)
    ensures
        b != BlockId::Cobblestone ==> (same_named_item(b) matches Some(i) ==> drops_spec(b, 1)
            == seq![(i, 1u32)] && (nb_drops > 0 ==> drops_spec(b, nb_drops) == seq![
            (i, nb_drops as u32),
        ])),
        drops_spec(BlockId::Cobblestone, nb_drops) == Seq::<(ItemId, u32)>::empty(),
        drops_spec(BlockId::Grass, nb_drops) == drops_spec(BlockId::Dirt, nb_drops),
        drops_spec(BlockId::Stone, 1) == seq![(ItemId::Cobblestone, 1u32)],
{
}

} // verus!
