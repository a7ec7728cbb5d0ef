use rustcraft::geometry::IVec3;
use rustcraft::queues::{LateralFlowQueue, WaterSimulationQueue, WaterSurfaceUpdateQueue};

#[test]
fn test_water_simulation_queue() {
    let mut queue = WaterSimulationQueue::new();

    queue.queue(IVec3::new(0, 0, 0));
    queue.queue(IVec3::new(1, 0, 0));
    queue.queue(IVec3::new(0, 0, 0));

    assert_eq!(queue.len(), 2);

    assert_eq!(queue.pop(), Some(IVec3::new(0, 0, 0)));
    assert_eq!(queue.pop(), Some(IVec3::new(1, 0, 0)));
    assert_eq!(queue.pop(), None);
    assert!(queue.is_empty());
}

#[test]
fn queue_many_keeps_first_order_and_skips_repeats() {
    let mut queue = WaterSimulationQueue::new();
    queue.queue(IVec3::new(2, 0, 0));
    queue.queue_many(vec![IVec3::new(1, 0, 0), IVec3::new(2, 0, 0), IVec3::new(3, 0, 0), IVec3::new(1, 0, 0)]);
    assert_eq!(queue.len(), 3);
    assert_eq!(queue.pop(), Some(IVec3::new(2, 0, 0)));
    assert_eq!(queue.pop(), Some(IVec3::new(1, 0, 0)));
    // A popped position can be queued again.
    queue.queue(IVec3::new(2, 0, 0));
    assert_eq!(queue.pop(), Some(IVec3::new(3, 0, 0)));
    assert_eq!(queue.pop(), Some(IVec3::new(2, 0, 0)));
    assert!(queue.is_empty());
}

#[test]
fn lateral_queue_is_a_set() {
    let mut queue = LateralFlowQueue::new();
    let a = IVec3::new(1, 0, 1);
    let b = IVec3::new(2, 0, 1);
    queue.queue(a);
    queue.queue(b);
    queue.queue(a);
    assert_eq!(queue.pending_chunks.len(), 2);
    queue.remove(&a);
    assert!(!queue.contains(&a));
    assert!(queue.contains(&b));
    queue.remove(&a);
    assert_eq!(queue.pending_chunks, vec![b]);
}

#[test]
fn surface_update_queue_clear() {
    let mut queue = WaterSurfaceUpdateQueue::new();
    queue.queue(IVec3::new(0, 0, 0));
    queue.queue(IVec3::new(0, 0, 0));
    assert_eq!(queue.pending_chunks.len(), 1);
    queue.clear();
    assert!(queue.pending_chunks.is_empty());
}
