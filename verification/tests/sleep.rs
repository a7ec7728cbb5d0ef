use rustcraft::geometry::IVec3;
use rustcraft::sleep::{
    ChunkWaterSleepState, WaterSleepState, MIN_AWAKE_TICKS_AFTER_WAKE, MIN_STABLE_TICKS_TO_SLEEP,
};
use rustcraft::sleep_manager::{
    record_chunk_flow_activity, should_simulate_chunk, wake_water_at, WaterSleepManager,
};

/// Whether a tick's volume change counts as calm (threshold 0.01).
fn calm(volume_delta: f32) -> bool {
    volume_delta.abs() < 0.01
}

#[test]
fn test_sleep_state_transitions() {
    let mut state = ChunkWaterSleepState::new();
    assert_eq!(state.state, WaterSleepState::Awake);

    for _ in 0..MIN_STABLE_TICKS_TO_SLEEP {
        state.record_activity(calm(0.0), 0);
        state.update();
    }

    assert_eq!(state.state, WaterSleepState::Asleep);
}

#[test]
fn test_activity_prevents_sleep() {
    let mut state = ChunkWaterSleepState::new();

    for _ in 0..MIN_STABLE_TICKS_TO_SLEEP {
        state.record_activity(calm(0.5), 5);
        state.update();
    }

    assert_eq!(state.state, WaterSleepState::Awake);
}

#[test]
fn test_wake_from_sleep() {
    let mut state = ChunkWaterSleepState::new();

    for _ in 0..MIN_STABLE_TICKS_TO_SLEEP {
        state.record_activity(calm(0.0), 0);
        state.update();
    }
    assert!(state.is_asleep());

    let test_chunk_pos = IVec3::new(0, 0, 0);
    state.wake(test_chunk_pos, "test");
    assert_eq!(state.state, WaterSleepState::Waking);
    assert!(!state.is_asleep());
    assert!(state.should_simulate());
}

#[test]
fn test_wake_cooldown() {
    let mut state = ChunkWaterSleepState::new();
    state.state = WaterSleepState::Waking;
    state.ticks_since_wake = 0;

    for _ in 0..MIN_AWAKE_TICKS_AFTER_WAKE {
        assert_eq!(state.state, WaterSleepState::Waking);
        state.update();
    }

    assert_eq!(state.state, WaterSleepState::Awake);
}

#[test]
fn test_manager_should_simulate() {
    let mut manager = WaterSleepManager::new();
    let chunk = IVec3::new(0, 0, 0);

    assert!(manager.should_simulate(&chunk));

    let state = manager.get_or_create(chunk);
    state.state = WaterSleepState::Asleep;

    assert!(!manager.should_simulate(&chunk));
}

#[test]
fn test_manager_wake_neighbors() {
    let mut manager = WaterSleepManager::new();
    let center = IVec3::new(5, 5, 5);
    let neighbor = IVec3::new(6, 5, 5);

    manager.get_or_create(center).state = WaterSleepState::Asleep;
    manager.get_or_create(neighbor).state = WaterSleepState::Asleep;

    manager.wake_chunk(center, "test", true);

    assert_eq!(manager.get(&center).unwrap().state, WaterSleepState::Waking);
    assert_eq!(manager.get(&neighbor).unwrap().state, WaterSleepState::Waking);
}

#[test]
fn one_unstable_tick_restarts_the_count() {
    let mut state = ChunkWaterSleepState::new();
    for _ in 0..MIN_STABLE_TICKS_TO_SLEEP - 1 {
        state.record_activity(true, 0);
        state.update();
    }
    assert_eq!(state.stable_ticks, MIN_STABLE_TICKS_TO_SLEEP - 1);
    // Three flows in a tick is too many to be stable.
    state.record_activity(true, 3);
    state.update();
    assert_eq!(state.stable_ticks, 0);
    assert_eq!(state.state, WaterSleepState::Awake);
    // Two flows is still stable.
    state.record_activity(true, 2);
    state.update();
    assert_eq!(state.stable_ticks, 1);
    assert!(state.last_tick_volume_calm);
    assert_eq!(state.last_tick_flow_count, 0);
}

#[test]
fn keep_awake_moves_sleep_to_cooldown() {
    let mut state = ChunkWaterSleepState::new();
    state.state = WaterSleepState::Asleep;
    state.stable_ticks = 20;
    state.ticks_since_wake = 4;
    state.keep_awake();
    assert_eq!(state.state, WaterSleepState::Waking);
    assert_eq!(state.stable_ticks, 0);
    assert_eq!(state.ticks_since_wake, 0);
    assert_eq!(state.generation, 0);
    state.record_activity(true, 1);
    assert_eq!(state.generation, 1);
}

#[test]
fn sleeping_state_ignores_updates() {
    let mut state = ChunkWaterSleepState::new();
    state.state = WaterSleepState::Asleep;
    for _ in 0..50 {
        state.record_activity(false, 100);
        state.update();
        assert!(state.is_asleep());
    }
}

#[test]
fn manager_update_all_counts_states() {
    let mut manager = WaterSleepManager::new();
    let a = IVec3::new(0, 0, 0);
    let b = IVec3::new(10, 0, 0);
    let c = IVec3::new(20, 0, 0);
    manager.get_or_create(a).stable_ticks = MIN_STABLE_TICKS_TO_SLEEP - 1;
    manager.get_or_create(b).state = WaterSleepState::Waking;
    manager.record_activity(c, false, 0);
    manager.update_all();
    assert!(manager.is_sleeping(&a));
    assert_eq!(manager.recently_slept, vec![a]);
    assert_eq!(manager.stats.sleeping_chunks, 1);
    assert_eq!(manager.stats.awake_chunks, 1);
    assert_eq!(manager.stats.waking_chunks, 1);
    assert_eq!(manager.stats.ticks_saved, 1);
    manager.update_all();
    assert!(manager.recently_slept.is_empty());
    assert_eq!(manager.stats.ticks_saved, 2);
    assert_eq!(
        manager.summary(),
        "Water Sleep: 1 sleeping, 1 awake, 1 waking (saved 2 ticks total)"
    );
}

#[test]
fn manager_wake_records_only_sleeping_chunks() {
    let mut manager = WaterSleepManager::new();
    let center = IVec3::new(0, 0, 0);
    let far = IVec3::new(2, 0, 0);
    let diag = IVec3::new(-1, 1, -1);
    manager.get_or_create(center);
    manager.get_or_create(far).state = WaterSleepState::Asleep;
    manager.get_or_create(diag).state = WaterSleepState::Asleep;
    manager.wake_chunk(center, "test", true);
    assert_eq!(manager.recently_woken, vec![diag]);
    assert!(manager.is_sleeping(&far));
    assert!(!manager.is_sleeping(&diag));
    manager.wake_chunk(far, "test", false);
    assert_eq!(manager.recently_woken.len(), 2);
}

#[test]
fn wake_near_position_uses_floor_division() {
    let mut manager = WaterSleepManager::new();
    let chunk = IVec3::new(-2, 0, 0);
    manager.get_or_create(chunk).state = WaterSleepState::Asleep;
    // Block x = -17 lies in chunk -2; block x = -15 lies in chunk -1, still a neighbour.
    wake_water_at(&mut manager, IVec3::new(-15, 3, 3));
    assert!(!manager.is_sleeping(&chunk));
    assert!(should_simulate_chunk(&manager, &chunk));
}

#[test]
fn cleanup_forgets_chunks_without_water() {
    let mut manager = WaterSleepManager::new();
    let a = IVec3::new(1, 2, 3);
    let b = IVec3::new(4, 5, 6);
    record_chunk_flow_activity(&mut manager, a, true, 0);
    record_chunk_flow_activity(&mut manager, b, true, 0);
    manager.cleanup_empty_chunks(&vec![b]);
    assert!(manager.get(&a).is_none());
    assert!(manager.get(&b).is_some());
    assert_eq!(manager.get(&b).unwrap().generation, 1);
}

#[test]
fn summary_of_a_new_manager() {
    assert_eq!(
        WaterSleepManager::new().summary(),
        "Water Sleep: 0 sleeping, 0 awake, 0 waking (saved 0 ticks total)"
    );
}
