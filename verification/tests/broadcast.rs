use rustcraft::broadcast::{
    chunk_limit, is_valid_render_distance, select_chunks_to_send, SentChunks,
    DEFAULT_RENDER_DISTANCE,
};
use rustcraft::geometry::IVec3;

#[test]
fn chunk_limit_scales_with_render_distance() {
    assert_eq!(chunk_limit(8), 48);
    assert_eq!(chunk_limit(1), 6);
    assert_eq!(chunk_limit(9), 50);
    assert_eq!(chunk_limit(i32::MAX), 50);
    assert_eq!(chunk_limit(0), 0);
    assert_eq!(chunk_limit(-1), (-6i32) as usize);
}

#[test]
fn chooses_unsent_existing_chunks_up_to_limit() {
    let active = vec![
        IVec3::new(0, 0, 0),
        IVec3::new(1, 0, 0),
        IVec3::new(2, 0, 0),
        IVec3::new(3, 0, 0),
        IVec3::new(4, 0, 0),
    ];
    let exists = vec![true, false, true, true, true];
    let sent = vec![false, false, true, false, false];
    assert_eq!(
        select_chunks_to_send(&active, &exists, &sent, 2),
        vec![IVec3::new(0, 0, 0), IVec3::new(3, 0, 0)]
    );
    assert_eq!(
        select_chunks_to_send(&active, &exists, &sent, 10),
        vec![IVec3::new(0, 0, 0), IVec3::new(3, 0, 0), IVec3::new(4, 0, 0)]
    );
    assert!(select_chunks_to_send(&active, &exists, &sent, 0).is_empty());
}

#[test]
fn repeated_chunk_is_sent_once() {
    let active = vec![IVec3::new(0, 0, 0), IVec3::new(0, 0, 0)];
    let r = select_chunks_to_send(&active, &vec![true, true], &vec![false, false], 5);
    assert_eq!(r, vec![IVec3::new(0, 0, 0)]);
}

#[test]
fn render_distance_bounds() {
    assert!(is_valid_render_distance(1));
    assert!(is_valid_render_distance(32));
    assert!(is_valid_render_distance(DEFAULT_RENDER_DISTANCE));
    assert!(!is_valid_render_distance(0));
    assert!(!is_valid_render_distance(-3));
    assert!(!is_valid_render_distance(33));
}

#[test]
fn sent_chunks_go_out_once_until_they_change() {
    let a = IVec3::new(0, 0, 0);
    let b = IVec3::new(1, 0, 0);
    let c = IVec3::new(2, 0, 0);
    let missing = IVec3::new(9, 9, 9);
    let mut world = SentChunks::new();
    world.add_chunk(a);
    world.add_chunk(b);
    world.add_chunk(c);
    world.add_chunk(a);
    let active = vec![a, missing, b, c];

    let sent = world.send_chunks_to_player(&active, &vec![], 7, 2);
    assert_eq!(sent, vec![a, b]);
    assert!(world.was_sent(&a, 7));
    assert!(world.was_sent(&b, 7));
    assert!(!world.was_sent(&c, 7));
    assert!(!world.was_sent(&a, 8));
    assert!(!world.was_sent(&missing, 7));

    let sent = world.send_chunks_to_player(&active, &vec![], 7, 2);
    assert_eq!(sent, vec![c]);
    let sent = world.send_chunks_to_player(&active, &vec![], 7, 2);
    assert!(sent.is_empty());

    // Another player gets its own copies.
    let sent = world.send_chunks_to_player(&active, &vec![], 8, 50);
    assert_eq!(sent, vec![a, b, c]);

    // A changed chunk goes out again, and its record is cleared for everyone.
    let sent = world.send_chunks_to_player(&active, &vec![b], 7, 50);
    assert_eq!(sent, vec![b]);
    assert!(!world.was_sent(&b, 8));
    let sent = world.send_chunks_to_player(&active, &vec![], 8, 50);
    assert_eq!(sent, vec![b]);
}

#[test]
fn changed_chunks_outside_the_active_area_keep_their_record() {
    let a = IVec3::new(0, 0, 0);
    let far = IVec3::new(40, 0, 0);
    let mut world = SentChunks::new();
    world.add_chunk(a);
    world.add_chunk(far);
    let sent = world.send_chunks_to_player(&vec![a, far], &vec![], 1, 50);
    assert_eq!(sent, vec![a, far]);
    let sent = world.send_chunks_to_player(&vec![a], &vec![far], 1, 50);
    assert!(sent.is_empty());
    assert!(world.was_sent(&far, 1));
}
