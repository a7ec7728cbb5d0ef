use rustcraft::block_map::BlockMap;
use rustcraft::blocks::{BlockData, BlockDirection, BlockId, ItemId, ItemType, PlacementRefusal};
use rustcraft::geometry::IVec3;
use rustcraft::interaction::{break_block_at, place_block_step, BreakOutcome};

#[test]
fn breaking_nothing_changes_nothing() {
    let mut blocks = BlockMap::new();
    assert!(matches!(break_block_at(&mut blocks, IVec3::new(1, 1, 1)), BreakOutcome::NoBlock));
    assert_eq!(blocks.len(), 0);
}

#[test]
fn breaking_damages_then_removes() {
    let mut blocks = BlockMap::new();
    let p = IVec3::new(2, 3, 4);
    blocks.insert(p, BlockData::new(BlockId::Dandelion, BlockDirection::Front));
    for progress in 1..6u8 {
        match break_block_at(&mut blocks, p) {
            BreakOutcome::Damaged(n) => assert_eq!(n, progress),
            other => panic!("unexpected outcome {:?}", other),
        }
        assert_eq!(blocks.get(&p).map(|b| b.breaking_progress), Some(progress));
    }
    match break_block_at(&mut blocks, p) {
        BreakOutcome::Broken(drops) => assert_eq!(drops, vec![(ItemId::Dandelion, 1)]),
        other => panic!("unexpected outcome {:?}", other),
    }
    assert_eq!(blocks.get(&p), None);
    assert_eq!(blocks.len(), 0);
}

#[test]
fn placing_fills_the_free_cell_across_the_face() {
    let mut blocks = BlockMap::new();
    let hit = Some((IVec3::new(0, 5, 0), IVec3::new(0, 1, 0)));
    let stone = Some(ItemType::Block(BlockId::Stone));
    let placed = place_block_step(&mut blocks, hit, true, false, 0, stone);
    assert_eq!(placed, Ok(BlockData::new(BlockId::Stone, BlockDirection::Front)));
    assert_eq!(blocks.get(&IVec3::new(0, 6, 0)).map(|b| b.id), Some(BlockId::Stone));
    // The cell is now taken.
    assert_eq!(place_block_step(&mut blocks, hit, true, false, 0, stone), Err(PlacementRefusal::Occupied));
    assert_eq!(place_block_step(&mut blocks, None, true, false, 0, stone), Err(PlacementRefusal::NoTarget));
    assert_eq!(blocks.len(), 1);
}
