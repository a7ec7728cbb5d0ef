use rustcraft::block_map::BlockMap;
use rustcraft::blocks::{BlockData, BlockDirection, BlockId};
use rustcraft::flora::{
    big_tree_layout, cactus_layout, fulfill_flora_request, generate_big_tree, generate_cactus,
    flora_roll_succeeds, generate_chunk_blocks, generate_chunk_layout, generate_tree,
    place_blocks, should_place_flora, tree_layout, try_place_block, BranchRolls, ColumnPlan,
    FloraRequest, FloraRolls,
};
use rustcraft::geometry::IVec3;
use rustcraft::world_data::FloraType;

fn kind_at(chunk: &BlockMap, x: i32, y: i32, z: i32) -> Option<BlockId> {
    chunk.get(&IVec3::new(x, y, z)).map(|b| b.id)
}

fn still_branch() -> BranchRolls {
    BranchRolls { x_roll: 0, z_roll: 0, y_roll: 0, length_roll: 0 }
}

#[test]
fn block_map_insert_overwrites() {
    let mut chunk = BlockMap::new();
    assert_eq!(chunk.len(), 0);
    let p = IVec3::new(1, 2, 3);
    chunk.insert(p, BlockData::new(BlockId::Stone, BlockDirection::Front));
    chunk.insert(IVec3::new(0, 0, 0), BlockData::new(BlockId::Dirt, BlockDirection::Left));
    chunk.insert(p, BlockData::new(BlockId::Sand, BlockDirection::Back));
    assert_eq!(chunk.len(), 2);
    assert_eq!(chunk.get(&p), Some(BlockData::new(BlockId::Sand, BlockDirection::Back)));
    assert_eq!(chunk.get(&IVec3::new(3, 2, 1)), None);
}

#[test]
fn try_place_block_drops_positions_outside_the_chunk() {
    let mut chunk = BlockMap::new();
    try_place_block(&mut chunk, 16, 0, 0, BlockId::Stone, BlockDirection::Front);
    try_place_block(&mut chunk, 0, -1, 0, BlockId::Stone, BlockDirection::Front);
    try_place_block(&mut chunk, 0, 0, 16, BlockId::Stone, BlockDirection::Front);
    assert_eq!(chunk.len(), 0);
    try_place_block(&mut chunk, 15, 15, 15, BlockId::Stone, BlockDirection::Right);
    assert_eq!(chunk.len(), 1);
    assert_eq!(
        chunk.get(&IVec3::new(15, 15, 15)),
        Some(BlockData::new(BlockId::Stone, BlockDirection::Right))
    );
}

#[test]
fn later_writes_win_and_outside_writes_are_dropped() {
    let mut chunk = BlockMap::new();
    let p = IVec3::new(4, 4, 4);
    let writes = vec![(p, BlockId::Stone), (IVec3::new(20, 0, 0), BlockId::Ice), (p, BlockId::Dirt)];
    place_blocks(&mut chunk, &writes);
    assert_eq!(chunk.len(), 1);
    assert_eq!(kind_at(&chunk, 4, 4, 4), Some(BlockId::Dirt));
}

#[test]
fn small_tree_layout_without_rim_leaves() {
    let rolls = vec![false; 75];
    let writes = tree_layout(8, 0, 8, BlockId::OakLog, BlockId::OakLeaves, 0, &rolls);
    // 3 trunk blocks, 13 + 5 + 1 canopy leaves, the trunk's top again.
    assert_eq!(writes.len(), 23);
    assert_eq!(writes[0], (IVec3::new(8, 0, 8), BlockId::OakLog));
    assert_eq!(writes[2], (IVec3::new(8, 2, 8), BlockId::OakLog));
    assert_eq!(writes[3], (IVec3::new(6, 2, 8), BlockId::OakLeaves));
    assert_eq!(writes[22], (IVec3::new(8, 2, 8), BlockId::OakLog));

    let mut chunk = BlockMap::new();
    place_blocks(&mut chunk, &writes);
    assert_eq!(chunk.len(), 21);
    assert_eq!(kind_at(&chunk, 8, 2, 8), Some(BlockId::OakLog));
    assert_eq!(kind_at(&chunk, 9, 2, 8), Some(BlockId::OakLeaves));
    assert_eq!(kind_at(&chunk, 8, 3, 8), Some(BlockId::OakLeaves));
    assert_eq!(kind_at(&chunk, 8, 4, 8), Some(BlockId::OakLeaves));
    assert_eq!(kind_at(&chunk, 10, 2, 9), None);
}

#[test]
fn small_tree_layout_with_rim_leaves() {
    let rolls = vec![true; 75];
    let writes = tree_layout(8, 0, 8, BlockId::OakLog, BlockId::OakLeaves, 2, &rolls);
    // 5 trunk blocks, (13 + 8) + (5 + 8) + 1 leaves, the trunk's top again.
    assert_eq!(writes.len(), 41);
    let mut chunk = BlockMap::new();
    place_blocks(&mut chunk, &writes);
    for y in 0..5 {
        assert_eq!(kind_at(&chunk, 8, y, 8), Some(BlockId::OakLog));
    }
    assert_eq!(kind_at(&chunk, 10, 4, 9), Some(BlockId::OakLeaves));
    assert_eq!(kind_at(&chunk, 10, 5, 8), Some(BlockId::OakLeaves));
    assert_eq!(kind_at(&chunk, 10, 6, 8), None);
}

#[test]
fn tree_at_chunk_edge_keeps_only_inner_blocks() {
    let rolls = vec![false; 75];
    let writes = tree_layout(0, 12, 0, BlockId::OakLog, BlockId::OakLeaves, 0, &rolls);
    let mut chunk = BlockMap::new();
    place_blocks(&mut chunk, &writes);
    // 3 trunk blocks, 5 more leaves of the lowest canopy layer and 3 of the
    // middle one fall inside the chunk; the top layer is above it.
    assert_eq!(chunk.len(), 11);
    for y in 12..15 {
        assert_eq!(kind_at(&chunk, 0, y, 0), Some(BlockId::OakLog));
    }
    assert_eq!(kind_at(&chunk, 1, 14, 1), Some(BlockId::OakLeaves));
    assert_eq!(kind_at(&chunk, 0, 15, 1), Some(BlockId::OakLeaves));
    assert_eq!(kind_at(&chunk, 0, 16, 0), None);
}

#[test]
fn big_tree_layout_with_still_rolls() {
    let rolls = vec![false; 75];
    let b = still_branch();
    let writes =
        big_tree_layout(8, 0, 8, BlockId::OakLog, BlockId::OakLeaves, 0, &b, &b, &rolls);
    // Two branches of 5 writes, 4 trunk blocks, 2 x 20 crown leaves, the top
    // leaf and 19 canopy leaves.
    assert_eq!(writes.len(), 74);
    // Branch: one step at height max(leaf_start - 1, 2) = 2, then its tip.
    assert_eq!(writes[0], (IVec3::new(8, 2, 9), BlockId::OakLeaves));
    assert_eq!(writes[3], (IVec3::new(8, 2, 8), BlockId::OakLog));
    assert_eq!(writes[4], (IVec3::new(9, 2, 8), BlockId::OakLeaves));
    let mut chunk = BlockMap::new();
    place_blocks(&mut chunk, &writes);
    assert_eq!(kind_at(&chunk, 8, 0, 8), Some(BlockId::OakLog));
    assert_eq!(kind_at(&chunk, 8, 3, 8), Some(BlockId::OakLog));
    // The crown starts at y = 2 and skips the trunk column and the corners.
    assert_eq!(kind_at(&chunk, 8, 2, 8), Some(BlockId::OakLog));
    assert_eq!(kind_at(&chunk, 6, 2, 6), None);
    assert_eq!(kind_at(&chunk, 6, 2, 7), Some(BlockId::OakLeaves));
    // The leaf above the crown's centre, then the canopy over it.
    assert_eq!(kind_at(&chunk, 8, 4, 8), Some(BlockId::OakLeaves));
    assert_eq!(kind_at(&chunk, 8, 6, 8), Some(BlockId::OakLeaves));
}

#[test]
fn big_tree_branch_rolls_shift_branches() {
    let rolls = vec![false; 75];
    let still = still_branch();
    // 0xFFFF_FFFF reads as -1: the branch starts one block towards -x and
    // one block higher; an odd length roll gives two steps.
    let shifted = BranchRolls { x_roll: 0xFFFF_FFFF, z_roll: 1, y_roll: 0xFFFF_FFFF, length_roll: 1 };
    let writes =
        big_tree_layout(8, 10, 8, BlockId::OakLog, BlockId::OakLeaves, 0, &shifted, &still, &rolls);
    assert_eq!(writes.len(), 78);
    assert_eq!(writes[0], (IVec3::new(7, 12, 10), BlockId::OakLeaves));
    assert_eq!(writes[3], (IVec3::new(7, 12, 9), BlockId::OakLog));
    assert_eq!(writes[7], (IVec3::new(8, 12, 9), BlockId::OakLog));
    assert_eq!(writes[8], (IVec3::new(9, 12, 9), BlockId::OakLeaves));
    // The unshifted second branch sits one below the crown (leaf_start = 12).
    assert_eq!(writes[12], (IVec3::new(8, 11, 8), BlockId::OakLog));
}

#[test]
fn branch_height_is_at_least_two() {
    let rolls = vec![false; 75];
    let low = BranchRolls { x_roll: 0, z_roll: 0, y_roll: 1, length_roll: 0 };
    // At y = 10 the branch sits two below the crown: 12 - 1 - 1.
    let writes =
        big_tree_layout(8, 10, 8, BlockId::OakLog, BlockId::OakLeaves, 0, &low, &low, &rolls);
    assert_eq!(writes[3], (IVec3::new(8, 10, 8), BlockId::OakLog));
    // At y = 0 that would be 0, which is raised to 2.
    let writes =
        big_tree_layout(8, 0, 8, BlockId::OakLog, BlockId::OakLeaves, 0, &low, &low, &rolls);
    assert_eq!(writes[3], (IVec3::new(8, 2, 8), BlockId::OakLog));
}

#[test]
fn cactus_layout_heights() {
    assert_eq!(
        cactus_layout(3, 0, 3, BlockId::Cactus, 0),
        vec![(IVec3::new(3, 0, 3), BlockId::Cactus), (IVec3::new(3, 1, 3), BlockId::Cactus)]
    );
    assert_eq!(cactus_layout(3, 0, 3, BlockId::Cactus, 1).len(), 3);
}

#[test]
fn generated_tree_has_wooden_trunk() {
    let mut chunk = BlockMap::new();
    generate_tree(&mut chunk, 8, 0, 8, BlockId::OakLog, BlockId::OakLeaves);
    for y in 0..3 {
        assert_eq!(kind_at(&chunk, 8, y, 8), Some(BlockId::OakLog));
    }
    assert!(chunk.len() >= 21);
}

#[test]
fn generated_big_tree_has_wooden_trunk() {
    let mut chunk = BlockMap::new();
    generate_big_tree(&mut chunk, 8, 0, 8, BlockId::OakLog, BlockId::OakLeaves);
    assert_eq!(kind_at(&chunk, 8, 0, 8), Some(BlockId::OakLog));
    assert_eq!(kind_at(&chunk, 8, 3, 8), Some(BlockId::OakLog));
}

#[test]
fn generated_cactus_stays_inside_the_chunk() {
    let mut chunk = BlockMap::new();
    generate_cactus(&mut chunk, 3, 0, 3, BlockId::Cactus);
    let n = chunk.len();
    assert!(n == 2 || n == 3);
    assert_eq!(kind_at(&chunk, 3, 1, 3), Some(BlockId::Cactus));

    let mut top = BlockMap::new();
    generate_cactus(&mut top, 3, 15, 3, BlockId::Cactus);
    assert_eq!(top.len(), 1);
    assert_eq!(kind_at(&top, 3, 15, 3), Some(BlockId::Cactus));
}

#[test]
fn flora_requests_grow_at_the_bottom_layer() {
    let mut chunk = BlockMap::new();
    fulfill_flora_request(
        &mut chunk,
        &FloraRequest { local_x: 4, local_z: 5, flora_type: FloraType::TallGrass, biome_type: 0 },
    );
    assert_eq!(kind_at(&chunk, 4, 0, 5), Some(BlockId::TallGrass));

    fulfill_flora_request(
        &mut chunk,
        &FloraRequest { local_x: 1, local_z: 1, flora_type: FloraType::Flower, biome_type: 0 },
    );
    let flower = kind_at(&chunk, 1, 0, 1);
    assert!(flower == Some(BlockId::Dandelion) || flower == Some(BlockId::Poppy));

    fulfill_flora_request(
        &mut chunk,
        &FloraRequest { local_x: 10, local_z: 10, flora_type: FloraType::Tree, biome_type: 0 },
    );
    assert_eq!(kind_at(&chunk, 10, 0, 10), Some(BlockId::OakLog));

    fulfill_flora_request(
        &mut chunk,
        &FloraRequest { local_x: 14, local_z: 2, flora_type: FloraType::Cactus, biome_type: 0 },
    );
    assert_eq!(kind_at(&chunk, 14, 1, 2), Some(BlockId::Cactus));
}

#[test]
fn flora_only_grows_on_its_surface_blocks() {
    let grass = vec![BlockId::Grass];
    assert!(!should_place_flora(0, BlockId::Grass, &grass));
    assert!(!should_place_flora(1000, BlockId::Sand, &grass));
    assert!(!should_place_flora(500, BlockId::Stone, &vec![]));
    assert!(should_place_flora(1000, BlockId::Grass, &grass));
    assert!(should_place_flora(2000, BlockId::Sand, &vec![BlockId::Grass, BlockId::Sand]));
}

#[test]
fn flora_roll_decides_below_the_chance() {
    let grass = vec![BlockId::Grass];
    assert!(flora_roll_succeeds(100, BlockId::Grass, &grass, 99));
    assert!(!flora_roll_succeeds(100, BlockId::Grass, &grass, 100));
    assert!(!flora_roll_succeeds(0, BlockId::Grass, &grass, 0));
    assert!(!flora_roll_succeeds(1000, BlockId::Sand, &grass, 0));
    assert!(flora_roll_succeeds(2000, BlockId::Grass, &grass, 999));
}

fn plan(height: i32, surface: BlockId) -> ColumnPlan {
    ColumnPlan {
        terrain_height: height,
        surface_block: surface,
        sub_surface_block: BlockId::Dirt,
        flower: 0,
        tall_grass: 0,
        tree: 0,
        cactus: 0,
        forest: false,
        biome_type: 0,
    }
}

#[test]
fn chunk_layers_follow_the_terrain() {
    let columns = vec![plan(5, BlockId::Grass); 256];
    let (chunk, requests) = generate_chunk_blocks(IVec3::new(0, 0, 0), &columns, &vec![]);
    assert!(requests.is_empty());
    assert_eq!(chunk.len(), 4096);
    assert_eq!(kind_at(&chunk, 3, 0, 7), Some(BlockId::Bedrock));
    assert_eq!(kind_at(&chunk, 3, 1, 7), Some(BlockId::Dirt));
    assert_eq!(kind_at(&chunk, 3, 4, 7), Some(BlockId::Dirt));
    assert_eq!(kind_at(&chunk, 3, 5, 7), Some(BlockId::Grass));
    assert_eq!(kind_at(&chunk, 3, 6, 7), Some(BlockId::Water));
    assert_eq!(kind_at(&chunk, 15, 15, 15), Some(BlockId::Water));

    let deep = vec![plan(40, BlockId::Grass); 256];
    let (chunk, _) = generate_chunk_blocks(IVec3::new(2, 1, -1), &deep, &vec![]);
    assert_eq!(kind_at(&chunk, 0, 0, 0), Some(BlockId::Stone));
    assert_eq!(kind_at(&chunk, 0, 15, 0), Some(BlockId::Stone));
}

#[test]
fn chunk_above_the_terrain_and_sea_is_empty() {
    let columns = vec![plan(70, BlockId::Grass); 256];
    let (chunk, requests) = generate_chunk_blocks(IVec3::new(0, 5, 0), &columns, &vec![]);
    assert_eq!(chunk.len(), 0);
    assert!(requests.is_empty());
    // Column cut off above height 70: cells 64..=70 filled, the rest empty.
    let (chunk, _) = generate_chunk_blocks(IVec3::new(0, 4, 0), &columns, &vec![]);
    assert_eq!(kind_at(&chunk, 1, 6, 1), Some(BlockId::Grass));
    assert_eq!(kind_at(&chunk, 1, 7, 1), None);
    assert_eq!(chunk.len(), 256 * 7);
}

#[test]
fn flora_on_the_top_layer_becomes_requests() {
    let mut grassy = plan(15, BlockId::Grass);
    grassy.flower = 1000;
    let (chunk, requests) =
        generate_chunk_blocks(IVec3::new(0, 0, 0), &vec![grassy; 256], &vec![]);
    assert_eq!(chunk.len(), 4096);
    assert_eq!(requests.len(), 256);
    assert!(requests.iter().all(|q| q.flora_type == FloraType::Flower));

    let mut wooded = plan(15, BlockId::Grass);
    wooded.tree = 1000;
    let (_, requests) = generate_chunk_blocks(IVec3::new(0, 0, 0), &vec![wooded; 256], &vec![]);
    assert_eq!(requests.len(), 14 * 14);
    assert!(requests.iter().all(|q| q.flora_type == FloraType::Tree
        && 1 <= q.local_x && q.local_x <= 14 && 1 <= q.local_z && q.local_z <= 14));

    let mut desert = plan(15, BlockId::Sand);
    desert.cactus = 1000;
    let (_, requests) = generate_chunk_blocks(IVec3::new(0, 0, 0), &vec![desert; 256], &vec![]);
    assert_eq!(requests.len(), 256);
    assert!(requests.iter().all(|q| q.flora_type == FloraType::Cactus));
}

#[test]
fn flora_below_the_top_is_covered_by_water() {
    let mut grassy = plan(10, BlockId::Grass);
    grassy.flower = 1000;
    let (chunk, requests) =
        generate_chunk_blocks(IVec3::new(0, 0, 0), &vec![grassy; 256], &vec![]);
    assert!(requests.is_empty());
    assert_eq!(chunk.len(), 4096);
    assert_eq!(kind_at(&chunk, 4, 11, 4), Some(BlockId::Water));
}

#[test]
fn pending_requests_are_grown_first() {
    let columns = vec![plan(70, BlockId::Grass); 256];
    let pending = vec![FloraRequest { local_x: 3, local_z: 3, flora_type: FloraType::TallGrass, biome_type: 0 }];
    let (chunk, _) = generate_chunk_blocks(IVec3::new(0, 5, 0), &columns, &pending);
    assert_eq!(chunk.len(), 1);
    assert_eq!(kind_at(&chunk, 3, 0, 3), Some(BlockId::TallGrass));
}

fn quiet_rolls() -> FloraRolls {
    let b = BranchRolls { x_roll: 0, z_roll: 0, y_roll: 0, length_roll: 0 };
    FloraRolls {
        flower: 999,
        tall_grass: 999,
        tree: 999,
        cactus: 999,
        dandelion: false,
        big_tree: 0,
        height: 0,
        first: b,
        second: b,
        canopy: 0,
    }
}

#[test]
fn layout_follows_the_given_rolls() {
    let mut grassy = plan(10, BlockId::Grass);
    grassy.flower = 500;
    grassy.tall_grass = 500;
    let columns = vec![grassy; 256];
    let mut rolls = vec![quiet_rolls(); 4096];
    // Column (2, 5), cell y = 10 (its surface): a flower roll of 499 succeeds.
    rolls[(2 * 16 + 5) * 16 + 10].flower = 499;
    rolls[(2 * 16 + 5) * 16 + 10].dandelion = true;
    // Column (7, 7): the flower roll fails, the tall grass roll succeeds.
    rolls[(7 * 16 + 7) * 16 + 10].flower = 500;
    rolls[(7 * 16 + 7) * 16 + 10].tall_grass = 0;
    let (chunk, requests) =
        generate_chunk_layout(IVec3::new(0, 4, 0), &columns, &vec![], &vec![], &rolls);
    assert!(requests.is_empty());
    // Chunk height 4 holds world heights 64..80, above the terrain and the sea.
    assert_eq!(chunk.len(), 0);

    let (chunk, requests) =
        generate_chunk_layout(IVec3::new(0, 0, 0), &columns, &vec![], &vec![], &rolls);
    assert!(requests.is_empty());
    // Below sea level the flora on the surface is covered by water.
    assert_eq!(kind_at(&chunk, 2, 11, 5), Some(BlockId::Water));
    assert_eq!(kind_at(&chunk, 7, 11, 7), Some(BlockId::Water));

    let mut high = plan(70, BlockId::Grass);
    high.flower = 500;
    high.tall_grass = 500;
    let columns = vec![high; 256];
    let mut rolls = vec![quiet_rolls(); 4096];
    rolls[(2 * 16 + 5) * 16 + 6].flower = 499;
    rolls[(2 * 16 + 5) * 16 + 6].dandelion = true;
    rolls[(7 * 16 + 7) * 16 + 6].tall_grass = 0;
    rolls[(9 * 16 + 1) * 16 + 6].flower = 0;
    let (chunk, requests) =
        generate_chunk_layout(IVec3::new(0, 4, 0), &columns, &vec![], &vec![], &rolls);
    assert!(requests.is_empty());
    assert_eq!(kind_at(&chunk, 2, 7, 5), Some(BlockId::Dandelion));
    assert_eq!(kind_at(&chunk, 7, 7, 7), Some(BlockId::TallGrass));
    assert_eq!(kind_at(&chunk, 9, 7, 1), Some(BlockId::Poppy));
    assert_eq!(kind_at(&chunk, 4, 7, 4), None);
    assert_eq!(chunk.len(), 256 * 7 + 3);
}

#[test]
fn layout_grows_pending_requests_with_their_rolls() {
    let columns = vec![plan(70, BlockId::Grass); 256];
    let pending = vec![FloraRequest { local_x: 3, local_z: 3, flora_type: FloraType::Flower, biome_type: 0 }];
    let mut pending_rolls = vec![quiet_rolls()];
    pending_rolls[0].dandelion = true;
    let (chunk, _) = generate_chunk_layout(
        IVec3::new(0, 5, 0),
        &columns,
        &pending,
        &pending_rolls,
        &vec![quiet_rolls(); 4096],
    );
    assert_eq!(chunk.len(), 1);
    assert_eq!(kind_at(&chunk, 3, 0, 3), Some(BlockId::Dandelion));
}

#[test]
fn bottom_layer_of_the_lowest_chunk_is_bedrock() {
    let columns = vec![plan(5, BlockId::Grass); 256];
    let pending = vec![
        FloraRequest { local_x: 3, local_z: 3, flora_type: FloraType::Flower, biome_type: 0 },
        FloraRequest { local_x: 8, local_z: 8, flora_type: FloraType::Cactus, biome_type: 0 },
    ];
    let (chunk, _) = generate_chunk_blocks(IVec3::new(0, 0, 0), &columns, &pending);
    for x in 0..16 {
        for z in 0..16 {
            assert_eq!(kind_at(&chunk, x, 0, z), Some(BlockId::Bedrock));
        }
    }
    // The cactus grown above the bottom cell is covered by the terrain too.
    assert_eq!(kind_at(&chunk, 8, 1, 8), Some(BlockId::Dirt));
}

#[test]
fn sure_flowers_on_the_top_layer_are_requested() {
    let mut grassy = plan(15, BlockId::Grass);
    grassy.flower = 1000;
    grassy.biome_type = 3;
    let mut columns = vec![plan(15, BlockId::Sand); 256];
    columns[4 * 16 + 9] = grassy;
    let (_, requests) = generate_chunk_blocks(IVec3::new(0, 0, 0), &columns, &vec![]);
    assert_eq!(
        requests,
        vec![FloraRequest { local_x: 4, local_z: 9, flora_type: FloraType::Flower, biome_type: 3 }]
    );
}
