use rustcraft::coords::{block_to_chunk_coord, CHUNK_SIZE};
use rustcraft::gravity::{compute_gravity_enabled, maybe_update_gravity_state};
use rustcraft::geometry::IVec3;

/// Chunk of a player standing at the given world position (coordinates truncated to blocks).
fn chunk_of(x: f32, y: f32, z: f32) -> IVec3 {
    IVec3::new(
        block_to_chunk_coord(x as i32),
        block_to_chunk_coord(y as i32),
        block_to_chunk_coord(z as i32),
    )
}

/// Gravity flag and last checked chunk of a test player.
struct TestPlayer {
    position: (f32, f32, f32),
    gravity_enabled: bool,
    last_gravity_check_chunk: Option<IVec3>,
}

fn create_test_player(x: f32, y: f32, z: f32) -> TestPlayer {
    TestPlayer { position: (x, y, z), gravity_enabled: false, last_gravity_check_chunk: None }
}

fn compute(player: &TestPlayer, loaded: &Vec<IVec3>) -> bool {
    let (x, y, z) = player.position;
    compute_gravity_enabled(chunk_of(x, y, z), loaded)
}

fn maybe_update(player: &mut TestPlayer, loaded: &Vec<IVec3>) {
    let (x, y, z) = player.position;
    maybe_update_gravity_state(
        &mut player.gravity_enabled,
        &mut player.last_gravity_check_chunk,
        chunk_of(x, y, z),
        loaded,
    );
}

#[test]
fn compute_gravity_enabled_all_chunks_loaded() {
    let player = create_test_player(8.0, 8.0, 8.0);
    let world_map = vec![IVec3::new(0, 0, 0), IVec3::new(0, -1, 0), IVec3::new(0, 1, 0)];
    assert!(compute(&player, &world_map));
}

#[test]
fn compute_gravity_enabled_missing_current_chunk() {
    let player = create_test_player(8.0, 8.0, 8.0);
    let world_map = vec![IVec3::new(0, -1, 0), IVec3::new(0, 1, 0)];
    assert!(!compute(&player, &world_map));
}

#[test]
fn compute_gravity_enabled_missing_chunk_below() {
    let player = create_test_player(8.0, 8.0, 8.0);
    let world_map = vec![IVec3::new(0, 0, 0), IVec3::new(0, 1, 0)];
    assert!(!compute(&player, &world_map));
}

#[test]
fn compute_gravity_enabled_missing_chunk_above() {
    let player = create_test_player(8.0, 8.0, 8.0);
    let world_map = vec![IVec3::new(0, 0, 0), IVec3::new(0, -1, 0)];
    assert!(!compute(&player, &world_map));
}

#[test]
fn compute_gravity_enabled_at_chunk_boundary_positive() {
    let player = create_test_player(16.0, 8.0, 8.0);
    let world_map = vec![IVec3::new(1, 0, 0), IVec3::new(1, -1, 0), IVec3::new(1, 1, 0)];
    assert!(compute(&player, &world_map));
}

#[test]
fn compute_gravity_enabled_at_chunk_boundary_negative() {
    let player = create_test_player(-1.0, 8.0, 8.0);
    let world_map = vec![IVec3::new(-1, 0, 0), IVec3::new(-1, -1, 0), IVec3::new(-1, 1, 0)];
    assert!(compute(&player, &world_map));
}

#[test]
fn compute_gravity_enabled_at_negative_y() {
    let player = create_test_player(8.0, -24.0, 8.0);
    let world_map = vec![IVec3::new(0, -2, 0), IVec3::new(0, -3, 0), IVec3::new(0, -1, 0)];
    assert!(compute(&player, &world_map));
}

#[test]
fn compute_gravity_enabled_at_negative_coords_missing_chunk() {
    let player = create_test_player(-8.0, -24.0, -8.0);
    let world_map = vec![IVec3::new(-1, -2, -1), IVec3::new(-1, -1, -1)];
    assert!(!compute(&player, &world_map));
}

#[test]
fn maybe_update_gravity_state_chunk_changed_chunks_loaded() {
    let mut player = create_test_player(8.0, 8.0, 8.0);
    player.last_gravity_check_chunk = Some(IVec3::new(-1, 0, 0));
    player.gravity_enabled = false;
    let current_chunk = IVec3::new(0, 0, 0);
    let world_map = vec![current_chunk, IVec3::new(0, -1, 0), IVec3::new(0, 1, 0)];

    maybe_update(&mut player, &world_map);

    assert!(player.gravity_enabled);
    assert_eq!(player.last_gravity_check_chunk, Some(current_chunk));
}

#[test]
fn maybe_update_gravity_state_chunk_changed_chunks_not_loaded() {
    let mut player = create_test_player(8.0, 8.0, 8.0);
    player.last_gravity_check_chunk = Some(IVec3::new(-1, 0, 0));
    player.gravity_enabled = true;
    let world_map = vec![];

    maybe_update(&mut player, &world_map);

    assert!(!player.gravity_enabled);
    assert_eq!(player.last_gravity_check_chunk, Some(IVec3::new(0, 0, 0)));
}

#[test]
fn maybe_update_gravity_state_same_chunk_gravity_enabled() {
    let mut player = create_test_player(8.0, 8.0, 8.0);
    let current_chunk = IVec3::new(0, 0, 0);
    player.last_gravity_check_chunk = Some(current_chunk);
    player.gravity_enabled = true;
    let world_map = vec![];

    maybe_update(&mut player, &world_map);

    assert!(player.gravity_enabled);
    assert_eq!(player.last_gravity_check_chunk, Some(current_chunk));
}

#[test]
fn maybe_update_gravity_state_same_chunk_gravity_disabled_waiting_for_chunks() {
    let mut player = create_test_player(8.0, 8.0, 8.0);
    let current_chunk = IVec3::new(0, 0, 0);
    player.last_gravity_check_chunk = Some(current_chunk);
    player.gravity_enabled = false;

    let world_map = vec![];
    maybe_update(&mut player, &world_map);
    assert!(!player.gravity_enabled);

    let world_map = vec![current_chunk, IVec3::new(0, -1, 0), IVec3::new(0, 1, 0)];
    maybe_update(&mut player, &world_map);
    assert!(player.gravity_enabled);
}

#[test]
fn maybe_update_gravity_state_first_check_no_previous_chunk() {
    let mut player = create_test_player(8.0, 8.0, 8.0);
    player.last_gravity_check_chunk = None;
    player.gravity_enabled = false;
    let current_chunk = IVec3::new(0, 0, 0);
    let world_map = vec![current_chunk, IVec3::new(0, -1, 0), IVec3::new(0, 1, 0)];

    maybe_update(&mut player, &world_map);

    assert!(player.gravity_enabled);
    assert_eq!(player.last_gravity_check_chunk, Some(current_chunk));
}

#[test]
fn maybe_update_gravity_state_player_moving_between_chunks() {
    let mut player = create_test_player(8.0, 8.0, 8.0);
    player.last_gravity_check_chunk = Some(IVec3::new(0, 0, 0));
    player.gravity_enabled = true;

    player.position = (24.0, 8.0, 8.0);
    let new_chunk = IVec3::new(1, 0, 0);
    let world_map = vec![new_chunk, IVec3::new(1, -1, 0), IVec3::new(1, 1, 0)];

    maybe_update(&mut player, &world_map);

    assert!(player.gravity_enabled);
    assert_eq!(player.last_gravity_check_chunk, Some(new_chunk));
}

#[test]
fn maybe_update_gravity_state_chunks_unload_while_gravity_disabled() {
    let mut player = create_test_player(8.0, 8.0, 8.0);
    let current_chunk = IVec3::new(0, 0, 0);
    player.last_gravity_check_chunk = Some(current_chunk);
    player.gravity_enabled = false;
    let world_map = vec![];

    for _ in 0..5 {
        maybe_update(&mut player, &world_map);
        assert!(!player.gravity_enabled);
        assert_eq!(player.last_gravity_check_chunk, Some(current_chunk));
    }
}

#[test]
fn compute_gravity_enabled_chunk_boundary_edge_cases() {
    let chunk_size = CHUNK_SIZE as f32;
    let test_cases = vec![
        ((0.0, 0.0, 0.0), IVec3::new(0, 0, 0)),
        ((chunk_size, 0.0, 0.0), IVec3::new(1, 0, 0)),
        ((-chunk_size, 0.0, 0.0), IVec3::new(-1, 0, 0)),
        ((0.0, chunk_size, 0.0), IVec3::new(0, 1, 0)),
        ((0.0, -chunk_size, 0.0), IVec3::new(0, -1, 0)),
    ];

    for (pos, expected_chunk) in test_cases {
        let player = create_test_player(pos.0, pos.1, pos.2);
        let below = IVec3::new(expected_chunk.x, expected_chunk.y - 1, expected_chunk.z);
        let above = IVec3::new(expected_chunk.x, expected_chunk.y + 1, expected_chunk.z);
        let world_map = vec![expected_chunk, below, above];

        assert!(
            compute(&player, &world_map),
            "Failed for position {:?} in chunk {:?}",
            pos,
            expected_chunk
        );
    }
}
