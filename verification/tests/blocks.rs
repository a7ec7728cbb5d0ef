use rustcraft::blocks::{
    advance_block_breaking, decide_block_placement, placement_target, BlockData, BlockDirection,
    BlockHitbox, BlockId, BlockTags, BlockTransparency, HitboxShape, ItemId, ItemType,
    PlacementRefusal, MAX_INVENTORY_SLOTS,
};
use rustcraft::geometry::IVec3;
use rustcraft::world_data::ItemStack;

#[test]
fn break_times_follow_the_table() {
    assert_eq!(BlockId::Dirt.get_break_time(), 30);
    assert_eq!(BlockId::Grass.get_break_time(), 36);
    assert_eq!(BlockId::Stone.get_break_time(), 60);
    assert_eq!(BlockId::Debug.get_break_time(), 42);
    assert_eq!(BlockId::Bedrock.get_break_time(), 255);
    assert_eq!(BlockId::Water.get_break_time(), 255);
    assert_eq!(BlockId::Dandelion.get_break_time(), 6);
    assert_eq!(BlockId::Snow.get_break_time(), 54);
    assert_eq!(BlockId::Glass.get_break_time(), 18);
}

#[test]
fn drop_tables() {
    assert_eq!(BlockId::Stone.get_drop_table(), vec![(1, ItemId::Cobblestone, 1)]);
    assert_eq!(BlockId::Grass.get_drop_table(), vec![(1, ItemId::Dirt, 1)]);
    assert_eq!(BlockId::Snow.get_drop_table(), vec![(1, ItemId::Snowball, 4)]);
    assert!(BlockId::Glass.get_drop_table().is_empty());
    assert!(BlockId::Bedrock.get_drop_table().is_empty());
    assert!(BlockId::Debug.get_drop_table().is_empty());
    assert!(BlockId::Cobblestone.get_drop_table().is_empty());
}

#[test]
fn drops_multiply_the_count() {
    assert_eq!(BlockId::Snow.get_drops(3), vec![(ItemId::Snowball, 12)]);
    assert_eq!(BlockId::Dirt.get_drops(1), vec![(ItemId::Dirt, 1)]);
    assert_eq!(BlockId::Stone.get_drops(5), vec![(ItemId::Cobblestone, 5)]);
    assert!(BlockId::Dirt.get_drops(0).is_empty());
    assert!(BlockId::Glass.get_drops(4).is_empty());
}

#[test]
fn tags_and_visibility() {
    assert_eq!(BlockId::Stone.get_tags(), vec![BlockTags::Stone, BlockTags::Solid]);
    assert_eq!(BlockId::Dirt.get_tags(), vec![BlockTags::Solid]);
    assert_eq!(BlockId::Glass.get_visibility(), BlockTransparency::Transparent);
    assert_eq!(BlockId::Water.get_visibility(), BlockTransparency::Liquid);
    assert_eq!(BlockId::Poppy.get_visibility(), BlockTransparency::Decoration);
    assert_eq!(BlockId::Debug.get_visibility(), BlockTransparency::Solid);
    assert_eq!(BlockId::Sand.get_visibility(), BlockTransparency::Solid);
}

#[test]
fn hitboxes() {
    assert_eq!(BlockId::Stone.get_hitbox(), BlockHitbox::FullBlock);
    assert_eq!(BlockId::Debug.get_hitbox(), BlockHitbox::FullBlock);
    assert_eq!(BlockId::Water.get_hitbox(), BlockHitbox::Empty);
    assert_eq!(BlockId::TallGrass.get_hitbox(), BlockHitbox::Aabb(HitboxShape::ShortFlower));
    assert_eq!(BlockId::OakLeaves.get_ray_hitbox(), BlockHitbox::FullBlock);
    let (c, h) = HitboxShape::ShortFlower.center_and_half_size_tenths();
    assert_eq!(c, [5, 3, 5]);
    assert_eq!(h, [3, 3, 3]);
}

#[test]
fn breaking_level_scales_progress_to_ten() {
    let mut block = BlockData::new(BlockId::Dirt, BlockDirection::Front);
    assert_eq!(block.breaking_progress, 0);
    assert_eq!(block.get_breaking_level(), 0);
    block.breaking_progress = 15;
    assert_eq!(block.get_breaking_level(), 5);
    block.breaking_progress = 30;
    assert_eq!(block.get_breaking_level(), 10);
    // Past the break time the level is truncated to a byte.
    let mut flower = BlockData::new(BlockId::Poppy, BlockDirection::Left);
    flower.breaking_progress = 200;
    assert_eq!(flower.get_breaking_level(), (2000u16 / 6) as u8);
}

#[test]
fn breaking_a_block_until_it_drops() {
    let mut block = BlockData::new(BlockId::Dandelion, BlockDirection::Back);
    for _ in 0..5 {
        assert!(advance_block_breaking(&mut block).is_none());
    }
    let drops = advance_block_breaking(&mut block);
    assert_eq!(block.breaking_progress, 6);
    assert_eq!(drops, Some(vec![(ItemId::Dandelion, 1)]));
}

#[test]
fn defaults() {
    assert_eq!(BlockId::default(), BlockId::Dirt);
    assert_eq!(ItemId::default(), ItemId::Dirt);
    let stack = ItemStack::default();
    assert_eq!(stack.nb, 0);
    assert_eq!(stack.item_type, ItemType::Block(BlockId::Dirt));
}

#[test]
fn placement_fills_the_cell_across_the_hit_face() {
    assert_eq!(
        placement_target(IVec3::new(3, 10, -2), IVec3::new(0, 1, 0)),
        IVec3::new(3, 11, -2)
    );
    assert_eq!(
        placement_target(IVec3::new(3, 10, -2), IVec3::new(-1, 0, 0)),
        IVec3::new(2, 10, -2)
    );
}

#[test]
fn placement_checks_in_order() {
    let stone = Some(ItemType::Block(BlockId::Stone));
    assert_eq!(
        decide_block_placement(false, false, true, true, 99, None),
        Err(PlacementRefusal::NoTarget)
    );
    assert_eq!(
        decide_block_placement(true, false, true, true, 99, None),
        Err(PlacementRefusal::TooFar)
    );
    assert_eq!(
        decide_block_placement(true, true, true, true, 99, None),
        Err(PlacementRefusal::Occupied)
    );
    assert_eq!(
        decide_block_placement(true, true, false, true, 0, stone),
        Err(PlacementRefusal::CollidesWithPlayer)
    );
    assert_eq!(
        decide_block_placement(true, true, false, false, MAX_INVENTORY_SLOTS, stone),
        Err(PlacementRefusal::InvalidSlot)
    );
    assert_eq!(
        decide_block_placement(true, true, false, false, 35, None),
        Err(PlacementRefusal::EmptySlot)
    );
    assert_eq!(
        decide_block_placement(true, true, false, false, 35, stone),
        Ok(BlockData::new(BlockId::Stone, BlockDirection::Front))
    );
}
