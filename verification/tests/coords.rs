use rustcraft::coords::{
    all_neighbors, block_to_chunk_coord, chunk_in_radius, global_block_to_chunk_pos,
    global_to_chunk_local, global_to_local, is_valid_local_pos, lateral_neighbors, six_offsets,
    to_global_pos, to_local_pos, CHUNK_SIZE,
};
use rustcraft::geometry::IVec3;

#[test]
fn global_to_chunk_local_handles_positive_and_negative_coords() {
    let position = IVec3::new(16, 0, -1);
    let (chunk_pos, local_pos) = global_to_chunk_local(&position);

    assert_eq!(chunk_pos, IVec3::new(1, 0, -1));
    assert_eq!(local_pos, IVec3::new(0, 0, 15));
}

#[test]
fn test_lateral_neighbors() {
    let lateral = lateral_neighbors();
    assert_eq!(lateral.len(), 4);
    for offset in lateral {
        assert_eq!(offset.y, 0);
    }
}

#[test]
fn test_all_neighbors() {
    let all = all_neighbors();
    assert_eq!(all.len(), 6);
    let has_up = all.iter().any(|o| o.y == 1);
    let has_down = all.iter().any(|o| o.y == -1);
    assert!(has_up);
    assert!(has_down);
}

#[test]
fn test_lateral_neighbors_constant() {
    let lateral = lateral_neighbors();
    assert_eq!(lateral.len(), 4);
    for offset in lateral {
        assert_eq!(offset.y, 0, "LATERAL_NEIGHBORS should not have vertical components");
    }
}

#[test]
fn block_to_chunk_coord_rounds_down() {
    assert_eq!(block_to_chunk_coord(0), 0);
    assert_eq!(block_to_chunk_coord(15), 0);
    assert_eq!(block_to_chunk_coord(16), 1);
    assert_eq!(block_to_chunk_coord(-1), -1);
    assert_eq!(block_to_chunk_coord(-16), -1);
    assert_eq!(block_to_chunk_coord(-17), -2);
    assert_eq!(block_to_chunk_coord(i32::MIN + CHUNK_SIZE - 1), -134217728);
}

#[test]
fn local_pos_wraps_negative_coordinates() {
    assert_eq!(to_local_pos(&IVec3::new(-1, -16, -17)), IVec3::new(15, 0, 15));
    assert_eq!(to_local_pos(&IVec3::new(33, 16, 7)), IVec3::new(1, 0, 7));
}

#[test]
fn split_then_join_gives_position_back() {
    for p in [IVec3::new(-33, 5, 100), IVec3::new(0, -1, 15), IVec3::new(1000, -1000, 17)] {
        let (chunk, local) = global_to_chunk_local(&p);
        assert!(is_valid_local_pos(&local));
        assert_eq!(to_global_pos(&chunk, &local), p);
        assert_eq!(global_block_to_chunk_pos(&p), chunk);
        assert_eq!(global_to_local(p, chunk), local);
    }
}

#[test]
fn join_then_split_gives_parts_back() {
    let chunk = IVec3::new(-3, 2, 7);
    let local = IVec3::new(15, 0, 9);
    let global = to_global_pos(&chunk, &local);
    assert_eq!(global, IVec3::new(-33, 32, 121));
    assert_eq!(global_to_chunk_local(&global), (chunk, local));
}

#[test]
fn valid_local_positions() {
    assert!(is_valid_local_pos(&IVec3::new(0, 0, 0)));
    assert!(is_valid_local_pos(&IVec3::new(15, 15, 15)));
    assert!(!is_valid_local_pos(&IVec3::new(16, 0, 0)));
    assert!(!is_valid_local_pos(&IVec3::new(0, -1, 0)));
    assert!(!is_valid_local_pos(&IVec3::new(0, 0, 16)));
}

#[test]
fn chunk_radius_ignores_height() {
    let player = IVec3::new(0, 0, 0);
    assert!(chunk_in_radius(&player, &IVec3::new(2, 100, -2), 2));
    assert!(!chunk_in_radius(&player, &IVec3::new(3, 0, 0), 2));
    assert!(!chunk_in_radius(&player, &IVec3::new(0, 0, -3), 2));
}

#[test]
fn six_offsets_are_unit_steps() {
    let o = six_offsets();
    assert_eq!(o[0], IVec3::new(1, 0, 0));
    assert_eq!(o[1], IVec3::new(-1, 0, 0));
    assert_eq!(o[2], IVec3::new(0, 1, 0));
    assert_eq!(o[3], IVec3::new(0, -1, 0));
    assert_eq!(o[4], IVec3::new(0, 0, 1));
    assert_eq!(o[5], IVec3::new(0, 0, -1));
    assert_eq!(all_neighbors(), o);
}
