//! Sleeping of stable water: a chunk whose water has been calm for long
//! enough stops being simulated until something wakes it.
use vstd::prelude::*;

use crate::geometry::IVec3;

verus! {

/// Consecutive stable ticks after which a chunk's water falls asleep.
pub const MIN_STABLE_TICKS_TO_SLEEP: u32 = 20;

/// Largest number of flow events in a tick that still counts as stable.
pub const STABILITY_FLOW_COUNT_THRESHOLD: usize = 2;

/// Ticks a chunk stays in the waking state before it may sleep again.
pub const MIN_AWAKE_TICKS_AFTER_WAKE: u32 = 10;

/// Distance, in chunks, within which a terrain change wakes sleeping water.
pub const WAKE_RADIUS_CHUNKS: i32 = 1;

/// Sleep state of the water in one chunk.
#[derive(Debug, Clone, Copy, PartialEq, Eq, Structural)]
pub enum WaterSleepState {
    /// Water is being simulated.
    Awake,
    /// Water is stable and not simulated.
    Asleep,
    /// Water was woken recently and cannot sleep yet.
    Waking,
}

impl Default for WaterSleepState {
    fn default() -> (r: Self)
        ensures
            r == WaterSleepState::Awake,
    {
        WaterSleepState::Awake
    }
}

/// Sleep bookkeeping for the water of one chunk.
///
/// `last_tick_volume_calm` records whether the absolute volume change
/// reported for the current tick stayed below the stability threshold.
#[derive(Debug, Clone, Copy, PartialEq, Eq, Structural)]
pub struct ChunkWaterSleepState {
    /// Current sleep state.
    pub state: WaterSleepState,
    /// Consecutive stable ticks (reset by activity).
    pub stable_ticks: u32,
    /// Ticks since the chunk was last woken (wake cooldown).
    pub ticks_since_wake: u32,
    /// Whether the volume change of the current tick is below the stability threshold.
    pub last_tick_volume_calm: bool,
    /// Number of flow events in the current tick.
    pub last_tick_flow_count: usize,
    /// Number of activity reports received.
    pub generation: u64,
}

/// A freshly created, awake state.
pub open spec fn fresh_state() -> ChunkWaterSleepState {
    ChunkWaterSleepState {
        state: WaterSleepState::Awake,
        stable_ticks: 0,
        ticks_since_wake: 0,
        last_tick_volume_calm: true,
        last_tick_flow_count: 0,
        generation: 0,
    }
}

/// Whether the activity recorded for the current tick counts as stable.
pub open spec fn tick_is_stable(s: ChunkWaterSleepState) -> bool {
    s.last_tick_volume_calm && s.last_tick_flow_count <= STABILITY_FLOW_COUNT_THRESHOLD
}

/// `update` can run without a counter overflowing.
pub open spec fn update_ok(s: ChunkWaterSleepState) -> bool {
    &&& (s.state == WaterSleepState::Awake && tick_is_stable(s)) ==> s.stable_ticks < u32::MAX
    &&& s.state == WaterSleepState::Waking ==> s.ticks_since_wake < u32::MAX
}

/// The state after one call of `update`.
pub open spec fn update_spec(s: ChunkWaterSleepState) -> ChunkWaterSleepState {
    let t = match s.state {
        WaterSleepState::Awake => if tick_is_stable(s) {
            let n = (s.stable_ticks + 1) as u32;
            ChunkWaterSleepState {
                stable_ticks: n,
                state: if n >= MIN_STABLE_TICKS_TO_SLEEP {
                    WaterSleepState::Asleep
                } else {
                    WaterSleepState::Awake
                },
                ..s
            }
        } else {
            ChunkWaterSleepState { stable_ticks: 0, ..s }
        },
        WaterSleepState::Waking => {
            let n = (s.ticks_since_wake + 1) as u32;
            if n >= MIN_AWAKE_TICKS_AFTER_WAKE {
                ChunkWaterSleepState { state: WaterSleepState::Awake, ticks_since_wake: 0, ..s }
            } else {
                ChunkWaterSleepState { ticks_since_wake: n, ..s }
            }
        },
        WaterSleepState::Asleep => s,
    };
    ChunkWaterSleepState { last_tick_volume_calm: true, last_tick_flow_count: 0, ..t }
}

/// The state after one call of `wake`.
pub open spec fn wake_spec(s: ChunkWaterSleepState) -> ChunkWaterSleepState {
    match s.state {
        WaterSleepState::Asleep => ChunkWaterSleepState {
            state: WaterSleepState::Waking,
            ticks_since_wake: 0,
            stable_ticks: 0,
            ..s
        },
        WaterSleepState::Awake => ChunkWaterSleepState { stable_ticks: 0, ..s },
        WaterSleepState::Waking => s,
    }
}

/// The state after one call of `keep_awake`.
pub open spec fn keep_awake_spec(s: ChunkWaterSleepState) -> ChunkWaterSleepState {
    match s.state {
        WaterSleepState::Asleep => ChunkWaterSleepState {
            state: WaterSleepState::Waking,
            ticks_since_wake: 0,
            stable_ticks: 0,
            ..s
        },
        _ => ChunkWaterSleepState { stable_ticks: 0, ..s },
    }
}

/// The state after one call of `record_activity`.
pub open spec fn record_spec(
    s: ChunkWaterSleepState,
    volume_calm: bool,
    flow_count: usize,
) -> ChunkWaterSleepState {
    ChunkWaterSleepState {
        last_tick_volume_calm: volume_calm,
        last_tick_flow_count: flow_count,
        generation: (s.generation + 1) as u64,
        ..s
    }
}

impl ChunkWaterSleepState {
    /// A new, awake state with all counters at zero.
    pub fn new() -> (r: Self)
        ensures
            r == fresh_state(),
    {
        ChunkWaterSleepState {
            state: WaterSleepState::Awake,
            stable_ticks: 0,
            ticks_since_wake: 0,
            last_tick_volume_calm: true,
            last_tick_flow_count: 0,
            generation: 0,
        }
    }

    /// Whether this chunk's water should be simulated (it is not asleep).
    pub fn should_simulate(&self) -> (r: bool)
        ensures
            r == (self.state != WaterSleepState::Asleep),
    {
        self.state != WaterSleepState::Asleep
    }

    /// Whether this chunk's water is asleep.
    pub fn is_asleep(&self) -> (r: bool)
        ensures
            r == (self.state == WaterSleepState::Asleep),
    {
        self.state == WaterSleepState::Asleep
    }

    /// Records the activity of the current tick: whether the volume change
    /// stayed below the stability threshold, and how many flows occurred.
    pub fn record_activity(&mut self, volume_calm: bool, flow_count: usize)
        requires
            old(self).generation < u64::MAX,
        ensures
            *final(self) == record_spec(*old(self), volume_calm, flow_count),
    {
        self.last_tick_volume_calm = volume_calm;
        self.last_tick_flow_count = flow_count;
        self.generation = self.generation + 1;
    }

    /// Advances the sleep state by one tick according to the recorded
    /// activity, then resets the per-tick counters.
    pub fn update(&mut self)
        requires
            update_ok(*old(self)),
        ensures
            *final(self) == update_spec(*old(self)),
    {
        match self.state {
            WaterSleepState::Awake => {
                let is_stable = self.last_tick_volume_calm && self.last_tick_flow_count
                    <= STABILITY_FLOW_COUNT_THRESHOLD;
                if is_stable {
                    self.stable_ticks = self.stable_ticks + 1;
                    if self.stable_ticks >= MIN_STABLE_TICKS_TO_SLEEP {
                        self.state = WaterSleepState::Asleep;
                    }
                } else {
                    self.stable_ticks = 0;
                }
            },
            WaterSleepState::Waking => {
                self.ticks_since_wake = self.ticks_since_wake + 1;
                if self.ticks_since_wake >= MIN_AWAKE_TICKS_AFTER_WAKE {
                    self.state = WaterSleepState::Awake;
                    self.ticks_since_wake = 0;
                }
            },
            WaterSleepState::Asleep => {},
        }
        self.last_tick_volume_calm = true;
        self.last_tick_flow_count = 0;
    }

    /// Wakes the chunk: a sleeping chunk starts its wake cooldown, an awake
    /// chunk restarts its stability count. `chunk_pos` and `reason` describe
    /// the wake-up and do not change the outcome.
    pub fn wake(&mut self, chunk_pos: IVec3, reason: &str)
        ensures
            *final(self) == wake_spec(*old(self)),
    {
        if self.state == WaterSleepState::Asleep {
            self.state = WaterSleepState::Waking;
            self.ticks_since_wake = 0;
            self.stable_ticks = 0;
        } else if self.state == WaterSleepState::Awake {
            self.stable_ticks = 0;
        }
    }

    /// Forces the chunk to stay awake: restarts the stability count and
    /// moves a sleeping chunk into its wake cooldown.
    pub fn keep_awake(&mut self)
        ensures
            *final(self) == keep_awake_spec(*old(self)),
    {
        self.stable_ticks = 0;
        if self.state == WaterSleepState::Asleep {
            self.state = WaterSleepState::Waking;
            self.ticks_since_wake = 0;
        }
    }
}

/// The state after `n` ticks in which a calm tick with no flow is recorded
/// and the state is updated.
pub open spec fn after_calm_ticks(s: ChunkWaterSleepState, n: nat) -> ChunkWaterSleepState
    decreases n,
{
    if n == 0 {
        s
    } else {
        after_calm_ticks(update_spec(record_spec(s, true, 0)), (n - 1) as nat)
    }
}

/// The state after `n` ticks with no activity recorded.
pub open spec fn after_updates(s: ChunkWaterSleepState, n: nat) -> ChunkWaterSleepState
    decreases n,
{
    if n == 0 {
        s
    } else {
        after_updates(update_spec(s), (n - 1) as nat)
    }
}

/// A chunk whose state is updated with stable activity only falls asleep
/// once it has counted `MIN_STABLE_TICKS_TO_SLEEP` consecutive stable ticks,
/// and an update never puts a chunk to sleep after an unstable tick.
pub proof fn lemma_sleep_needs_stability(s: ChunkWaterSleepState)
    requires
        s.state != WaterSleepState::Asleep,
        update_spec(s).state == WaterSleepState::Asleep,
    ensures
        s.state == WaterSleepState::Awake,
        tick_is_stable(s),
        s.stable_ticks + 1 >= MIN_STABLE_TICKS_TO_SLEEP,
{
}

/// A sleeping chunk stays asleep through any number of updates.
pub proof fn lemma_asleep_stays_asleep(s: ChunkWaterSleepState, n: nat)
    requires
        s.state == WaterSleepState::Asleep,
    ensures
        after_updates(s, n).state == WaterSleepState::Asleep,
    decreases n,
{
    if n > 0 {
        lemma_asleep_stays_asleep(update_spec(s), (n - 1) as nat);
    }
}

/// Waking or keeping awake always leaves a chunk simulated.
pub proof fn lemma_wake_makes_simulated(s: ChunkWaterSleepState)
    ensures
        wake_spec(s).state != WaterSleepState::Asleep,
        keep_awake_spec(s).state != WaterSleepState::Asleep,
        s.state == WaterSleepState::Asleep ==> wake_spec(s).state == WaterSleepState::Waking,
{
}

/// Helper for `lemma_calm_ticks_put_to_sleep`: from an awake state with
/// `k` stable ticks counted, `n` more calm ticks count up to the sleep limit.
proof fn lemma_calm_ticks_from(s: ChunkWaterSleepState, n: nat)
    requires
        s.state == WaterSleepState::Awake,
        s.stable_ticks < MIN_STABLE_TICKS_TO_SLEEP,
        s.generation + n <= u64::MAX,
    ensures
        after_calm_ticks(s, n).state == (if s.stable_ticks + n >= MIN_STABLE_TICKS_TO_SLEEP {
            WaterSleepState::Asleep
        } else {
            WaterSleepState::Awake
        }),
    decreases n,
{
    if n > 0 {
        let t = update_spec(record_spec(s, true, 0));
        if t.state == WaterSleepState::Awake {
            lemma_calm_ticks_from(t, (n - 1) as nat);
        } else {
            lemma_asleep_calm(t, (n - 1) as nat);
        }
    }
}

/// Calm ticks leave a sleeping chunk asleep.
proof fn lemma_asleep_calm(s: ChunkWaterSleepState, n: nat)
    requires
        s.state == WaterSleepState::Asleep,
    ensures
        after_calm_ticks(s, n).state == WaterSleepState::Asleep,
    decreases n,
{
    if n > 0 {
        lemma_asleep_calm(update_spec(record_spec(s, true, 0)), (n - 1) as nat);
    }
}

/// A freshly created state falls asleep after exactly
/// `MIN_STABLE_TICKS_TO_SLEEP` calm ticks, and not before.
pub proof fn lemma_calm_ticks_put_to_sleep(n: nat)
    requires
        n <= u64::MAX,
    ensures
        after_calm_ticks(fresh_state(), n).state == WaterSleepState::Asleep <==> n
            >= MIN_STABLE_TICKS_TO_SLEEP,
{
    lemma_calm_ticks_from(fresh_state(), n);
}

/// A chunk that has just been woken stays in its cooldown for
/// `MIN_AWAKE_TICKS_AFTER_WAKE - 1` updates and is awake after
/// `MIN_AWAKE_TICKS_AFTER_WAKE` updates.
pub proof fn lemma_wake_cooldown(s: ChunkWaterSleepState, n: nat)
    requires
        s.state == WaterSleepState::Waking,
        s.ticks_since_wake == 0,
        n <= MIN_AWAKE_TICKS_AFTER_WAKE,
    ensures
        after_updates(s, n).state == (if n == MIN_AWAKE_TICKS_AFTER_WAKE {
            WaterSleepState::Awake
        } else {
            WaterSleepState::Waking
        }),
{
    lemma_waking_counts(s, n);
}

proof fn lemma_waking_counts(s: ChunkWaterSleepState, n: nat)
    requires
        s.state == WaterSleepState::Waking,
        s.ticks_since_wake < MIN_AWAKE_TICKS_AFTER_WAKE,
        s.ticks_since_wake + n <= MIN_AWAKE_TICKS_AFTER_WAKE,
    ensures
        after_updates(s, n).state == (if s.ticks_since_wake + n == MIN_AWAKE_TICKS_AFTER_WAKE {
            WaterSleepState::Awake
        } else {
            WaterSleepState::Waking
        }),
    decreases n,
{
    if n > 0 {
        let t = update_spec(s);
        if t.state == WaterSleepState::Waking {
            lemma_waking_counts(t, (n - 1) as nat);
        } else {
            assert(n == 1);
            reveal_with_fuel(after_updates, 2);
        }
    }
}

/// Waking an awake chunk restarts its count of calm ticks: whatever it had
/// counted before, it falls asleep after exactly `MIN_STABLE_TICKS_TO_SLEEP`
/// calm ticks following the wake, and not before.
pub proof fn lemma_wake_restarts_stability(s: ChunkWaterSleepState, n: nat)
    requires
        s.state == WaterSleepState::Awake,
        s.generation + n <= u64::MAX,
    ensures
        wake_spec(s).stable_ticks == 0,
        after_calm_ticks(wake_spec(s), n).state == WaterSleepState::Asleep <==> n
            >= MIN_STABLE_TICKS_TO_SLEEP,
{
    lemma_calm_ticks_from(wake_spec(s), n);
}

} // verus!
