//! Sleep bookkeeping for every chunk that holds water.
use vstd::prelude::*;
use vstd::string::StringExecFns;

use crate::geometry::IVec3;
use crate::pos_set::{contains_pos, insert_pos, no_duplicates};
use crate::sleep::{
    fresh_state, record_spec, update_ok, update_spec, wake_spec, ChunkWaterSleepState,
    WaterSleepState, WAKE_RADIUS_CHUNKS,
};

verus! {

/// Statistics about the water sleep system.
#[derive(Debug, Clone, Copy, PartialEq, Eq, Structural)]
pub struct WaterSleepStats {
    /// Chunks currently asleep.
    pub sleeping_chunks: usize,
    /// Chunks being simulated.
    pub awake_chunks: usize,
    /// Chunks in wake cooldown.
    pub waking_chunks: usize,
    /// Total simulation ticks saved (one per sleeping chunk per update).
    pub ticks_saved: u64,
}

/// Sleep state of every chunk with water, plus the chunks that changed state
/// during the last update.
pub struct WaterSleepManager {
    /// Sleep state per chunk; each chunk position occurs at most once.
    pub chunk_states: Vec<(IVec3, ChunkWaterSleepState)>,
    /// Chunks woken since the last update (each at most once).
    pub recently_woken: Vec<IVec3>,
    /// Chunks that fell asleep during the last update (each at most once).
    pub recently_slept: Vec<IVec3>,
    /// Global statistics.
    pub stats: WaterSleepStats,
}

/// Every key of the sequence occurs once.
pub open spec fn keys_unique(e: Seq<(IVec3, ChunkWaterSleepState)>) -> bool {
    forall|i: int, j: int| 0 <= i < e.len() && 0 <= j < e.len() && i != j ==> e[i].0 != e[j].0
}

/// Whether `k` is a key of the sequence.
pub open spec fn has_key(e: Seq<(IVec3, ChunkWaterSleepState)>, k: IVec3) -> bool {
    exists|i: int| 0 <= i < e.len() && e[i].0 == k
}

/// The map from keys to states described by the sequence.
pub open spec fn entries_view(e: Seq<(IVec3, ChunkWaterSleepState)>) -> Map<
    IVec3,
    ChunkWaterSleepState,
> {
    Map::new(
        |k: IVec3| has_key(e, k),
        |k: IVec3| e[choose|i: int| 0 <= i < e.len() && e[i].0 == k].1,
    )
}

/// Whether the chunk `k` is woken by waking `pos` (and, if `wake_neighbors`,
/// every chunk within `WAKE_RADIUS_CHUNKS` of it on all three axes).
pub open spec fn in_wake_area(k: IVec3, pos: IVec3, wake_neighbors: bool) -> bool {
    k == pos || (wake_neighbors && -WAKE_RADIUS_CHUNKS <= k.x - pos.x <= WAKE_RADIUS_CHUNKS
        && -WAKE_RADIUS_CHUNKS <= k.y - pos.y <= WAKE_RADIUS_CHUNKS && -WAKE_RADIUS_CHUNKS <= k.z
        - pos.z <= WAKE_RADIUS_CHUNKS)
}

/// Number of entries in state `st`.
pub open spec fn count_state(e: Seq<(IVec3, ChunkWaterSleepState)>, st: WaterSleepState) -> nat
    decreases e.len(),
{
    if e.len() == 0 {
        0
    } else {
        count_state(e.drop_last(), st) + if e.last().1.state == st {
            1nat
        } else {
            0nat
        }
    }
}

proof fn lemma_view_at(e: Seq<(IVec3, ChunkWaterSleepState)>, i: int)
    requires
        keys_unique(e),
        0 <= i < e.len(),
    ensures
        entries_view(e).dom().contains(e[i].0),
        entries_view(e)[e[i].0] == e[i].1,
{
    let k = e[i].0;
    assert(has_key(e, k));
    let j = choose|j: int| 0 <= j < e.len() && e[j].0 == k;
    assert(j == i);
}

proof fn lemma_view_update(e: Seq<(IVec3, ChunkWaterSleepState)>, i: int, v: ChunkWaterSleepState)
    requires
        keys_unique(e),
        0 <= i < e.len(),
    ensures
        keys_unique(e.update(i, (e[i].0, v))),
        entries_view(e.update(i, (e[i].0, v))) == entries_view(e).insert(e[i].0, v),
{
    let e2 = e.update(i, (e[i].0, v));
    let k0 = e[i].0;
    assert forall|k: IVec3| #[trigger] has_key(e2, k) == has_key(e, k) by {
        if has_key(e, k) {
            let j = choose|j: int| 0 <= j < e.len() && e[j].0 == k;
            assert(e2[j].0 == k);
        }
        if has_key(e2, k) {
            let j = choose|j: int| 0 <= j < e2.len() && e2[j].0 == k;
            assert(e[j].0 == k);
        }
    }
    assert forall|k: IVec3| has_key(e2, k) implies entries_view(e2)[k] == entries_view(
        e,
    ).insert(k0, v)[k] by {
        let j = choose|j: int| 0 <= j < e.len() && e[j].0 == k;
        lemma_view_at(e, j);
        lemma_view_at(e2, j);
    }
    assert(entries_view(e2) =~= entries_view(e).insert(k0, v));
}

proof fn lemma_view_push(e: Seq<(IVec3, ChunkWaterSleepState)>, k0: IVec3, v: ChunkWaterSleepState)
    requires
        keys_unique(e),
        !has_key(e, k0),
    ensures
        keys_unique(e.push((k0, v))),
        entries_view(e.push((k0, v))) == entries_view(e).insert(k0, v),
{
    let e2 = e.push((k0, v));
    assert forall|k: IVec3| #[trigger] has_key(e2, k) == (has_key(e, k) || k == k0) by {
        if has_key(e, k) {
            let j = choose|j: int| 0 <= j < e.len() && e[j].0 == k;
            assert(e2[j].0 == k);
        }
        if k == k0 {
            assert(e2[e.len() as int].0 == k);
        }
    }
    assert forall|k: IVec3| has_key(e2, k) implies entries_view(e2)[k] == entries_view(
        e,
    ).insert(k0, v)[k] by {
        let j = choose|j: int| 0 <= j < e2.len() && e2[j].0 == k;
        lemma_view_at(e2, j);
        if j < e.len() {
            lemma_view_at(e, j);
        }
    }
    assert(entries_view(e2) =~= entries_view(e).insert(k0, v));
}

/// Position of `pos` in the entries, if present.
fn find_entry(e: &Vec<(IVec3, ChunkWaterSleepState)>, pos: &IVec3) -> (r: Option<usize>)
    ensures
        r matches Some(i) ==> i < e@.len() && e@[i as int].0 == *pos,
        r is None ==> !has_key(e@, *pos),
{
    let mut i: usize = 0;
    while i < e.len()
        invariant
            i <= e@.len(),
            forall|t: int| 0 <= t < i ==> e@[t].0 != *pos,
        decreases e.len() - i,
    {
        if e[i].0 == *pos {
            return Some(i);
        }
        i += 1;
    }
    None
}

/// Whether chunk `k` has been handled by `wake_chunk` once the neighbour
/// loops have reached the offset `(dx, dy, dz)` (offsets are visited in
/// lexicographic order).
pub open spec fn wake_done(k: IVec3, pos: IVec3, wake_neighbors: bool, dx: int, dy: int, dz: int) -> bool {
    let ox = k.x - pos.x;
    let oy = k.y - pos.y;
    let oz = k.z - pos.z;
    k == pos || (wake_neighbors && -WAKE_RADIUS_CHUNKS <= ox <= WAKE_RADIUS_CHUNKS
        && -WAKE_RADIUS_CHUNKS <= oy <= WAKE_RADIUS_CHUNKS && -WAKE_RADIUS_CHUNKS <= oz
        <= WAKE_RADIUS_CHUNKS && (ox < dx || (ox == dx && oy < dy) || (ox == dx && oy == dy && oz
        < dz)))
}

/// The entries with every state advanced by one `update`.
pub open spec fn updated_entries(e: Seq<(IVec3, ChunkWaterSleepState)>) -> Seq<
    (IVec3, ChunkWaterSleepState),
> {
    e.map_values(|p: (IVec3, ChunkWaterSleepState)| (p.0, update_spec(p.1)))
}

/// The character of a decimal digit.
pub open spec fn digit_char(d: nat) -> char {
    if d == 0 {
        '0'
    } else if d == 1 {
        '1'
    } else if d == 2 {
        '2'
    } else if d == 3 {
        '3'
    } else if d == 4 {
        '4'
    } else if d == 5 {
        '5'
    } else if d == 6 {
        '6'
    } else if d == 7 {
        '7'
    } else if d == 8 {
        '8'
    } else {
        '9'
    }
}

/// The decimal digits of `n`, most significant first, without leading zeros.
pub open spec fn decimal(n: nat) -> Seq<char>
    decreases n,
{
    if n < 10 {
        seq![digit_char(n)]
    } else {
        decimal(n / 10).push(digit_char(n % 10))
    }
}

/// Text reported by `WaterSleepManager::summary` for the given statistics.
pub open spec fn sleep_summary_text(sleeping: nat, awake: nat, waking: nat, ticks_saved: nat) -> Seq<
    char,
> {
    "Water Sleep: "@ + decimal(sleeping) + " sleeping, "@ + decimal(awake) + " awake, "@ + decimal(
        waking,
    ) + " waking (saved "@ + decimal(ticks_saved) + " ticks total)"@
}

fn digit_str(d: u64) -> (r: &'static str)
    requires
        d < 10,
    ensures
        r@ == seq![digit_char(d as nat)],
{
    proof {
        reveal_strlit("0");
        reveal_strlit("1");
        reveal_strlit("2");
        reveal_strlit("3");
        reveal_strlit("4");
        reveal_strlit("5");
        reveal_strlit("6");
        reveal_strlit("7");
        reveal_strlit("8");
        reveal_strlit("9");
    }
    if d == 0 {
        "0"
    } else if d == 1 {
        "1"
    } else if d == 2 {
        "2"
    } else if d == 3 {
        "3"
    } else if d == 4 {
        "4"
    } else if d == 5 {
        "5"
    } else if d == 6 {
        "6"
    } else if d == 7 {
        "7"
    } else if d == 8 {
        "8"
    } else {
        "9"
    }
}

/// The decimal digits of `n`.
fn decimal_string(n: u64) -> (r: String)
    ensures
        r@ == decimal(n as nat),
    decreases n,
{
    if n < 10 {
        String::from_str(digit_str(n))
    } else {
        let mut s = decimal_string(n / 10);
        s.append(digit_str(n % 10));
        s
    }
}

proof fn lemma_count_bound(e: Seq<(IVec3, ChunkWaterSleepState)>, st: WaterSleepState)
    ensures
        count_state(e, st) <= e.len(),
    decreases e.len(),
{
    if e.len() > 0 {
        lemma_count_bound(e.drop_last(), st);
    }
}

proof fn lemma_count_push(
    e: Seq<(IVec3, ChunkWaterSleepState)>,
    x: (IVec3, ChunkWaterSleepState),
    st: WaterSleepState,
)
    ensures
        count_state(e.push(x), st) == count_state(e, st) + if x.1.state == st {
            1nat
        } else {
            0nat
        },
{
    assert(e.push(x).drop_last() =~= e);
}

proof fn lemma_view_updated(e: Seq<(IVec3, ChunkWaterSleepState)>)
    requires
        keys_unique(e),
    ensures
        keys_unique(updated_entries(e)),
        entries_view(updated_entries(e)).dom() == entries_view(e).dom(),
        forall|k: IVec3|
            #![trigger entries_view(updated_entries(e))[k]]
            entries_view(e).contains_key(k) ==> entries_view(updated_entries(e))[k] == update_spec(
                entries_view(e)[k],
            ),
{
    let u = updated_entries(e);
    assert forall|k: IVec3| #[trigger] has_key(u, k) == has_key(e, k) by {
        if has_key(e, k) {
            let j = choose|j: int| 0 <= j < e.len() && e[j].0 == k;
            assert(u[j].0 == k);
        }
        if has_key(u, k) {
            let j = choose|j: int| 0 <= j < u.len() && u[j].0 == k;
            assert(e[j].0 == k);
        }
    }
    assert(entries_view(u).dom() =~= entries_view(e).dom());
    assert forall|k: IVec3|
        #![trigger entries_view(updated_entries(e))[k]]
        entries_view(e).contains_key(k) implies entries_view(u)[k] == update_spec(
            entries_view(e)[k],
        ) by {
        let j = choose|j: int| 0 <= j < e.len() && e[j].0 == k;
        lemma_view_at(e, j);
        lemma_view_at(u, j);
    }
}

/// Chunk coordinate containing a block coordinate (floor division by the
/// chunk size), computed as `i32::div_euclid` does.
fn div_euclid_chunk(v: i32) -> (r: i32)
    ensures
        r == (v as int) / (crate::coords::CHUNK_SIZE as int),
{
    let q = v / crate::coords::CHUNK_SIZE;
    if v % crate::coords::CHUNK_SIZE < 0 {
        q - 1
    } else {
        q
    }
}

/// Progress of waking a chunk and its neighbours, `(a, b, c)` being the next
/// neighbour offset in walk order: the states of the chunks of the area
/// already walked are woken and all others unchanged, and exactly the
/// sleeping chunks among those walked were added to the recently woken.
pub open spec fn wake_progress(
    m: Map<IVec3, ChunkWaterSleepState>,
    woken: Seq<IVec3>,
    v0: Map<IVec3, ChunkWaterSleepState>,
    w0: Seq<IVec3>,
    chunk_pos: IVec3,
    wake_neighbors: bool,
    a: int,
    b: int,
    c: int,
) -> bool {
    &&& forall|k: IVec3|
        #![trigger m[k]]
        v0.contains_key(k) ==> m[k] == (if wake_done(k, chunk_pos, wake_neighbors, a, b, c) {
            wake_spec(v0[k])
        } else {
            v0[k]
        })
    &&& forall|x: IVec3|
        #![trigger woken.contains(x)]
        woken.contains(x) <==> (w0.contains(x) || (v0.contains_key(x) && wake_done(
            x,
            chunk_pos,
            wake_neighbors,
            a,
            b,
            c,
        ) && v0[x].state == WaterSleepState::Asleep))
}

impl WaterSleepManager {
    /// Internal consistency: each chunk and each recorded chunk occurs once.
    pub closed spec fn wf(&self) -> bool {
        &&& keys_unique(self.chunk_states@)
        &&& no_duplicates(self.recently_woken@)
        &&& no_duplicates(self.recently_slept@)
    }

    /// Sleep state of each chunk that has one.
    pub closed spec fn view(&self) -> Map<IVec3, ChunkWaterSleepState> {
        entries_view(self.chunk_states@)
    }

    /// Number of tracked chunks in state `st`.
    pub closed spec fn num_in_state(&self, st: WaterSleepState) -> nat {
        count_state(self.chunk_states@, st)
    }

    /// A manager that tracks no chunk.
    pub fn new() -> (r: Self)
        ensures
            r.wf(),
            r@ == Map::<IVec3, ChunkWaterSleepState>::empty(),
            r.recently_woken@ == Seq::<IVec3>::empty(),
            r.recently_slept@ == Seq::<IVec3>::empty(),
            r.stats == (WaterSleepStats {
                sleeping_chunks: 0,
                awake_chunks: 0,
                waking_chunks: 0,
                ticks_saved: 0,
            }),
    {
        let r = WaterSleepManager {
            chunk_states: Vec::new(),
            recently_woken: Vec::new(),
            recently_slept: Vec::new(),
            stats: WaterSleepStats { sleeping_chunks: 0, awake_chunks: 0, waking_chunks: 0, ticks_saved: 0 },
        };
        assert(r@ =~= Map::<IVec3, ChunkWaterSleepState>::empty());
        r
    }

    /// The sleep state of `chunk_pos`, created awake if the chunk had none.
    pub fn get_or_create(&mut self, chunk_pos: IVec3) -> (r: &mut ChunkWaterSleepState)
        requires
            old(self).wf(),
        ensures
            *r == (if old(self)@.contains_key(chunk_pos) {
                old(self)@[chunk_pos]
            } else {
                fresh_state()
            }),
            final(self).wf(),
            final(self)@ == old(self)@.insert(chunk_pos, *final(r)),
            final(self).recently_woken == old(self).recently_woken,
            final(self).recently_slept == old(self).recently_slept,
            final(self).stats == old(self).stats,
    {
        let idx = match find_entry(&self.chunk_states, &chunk_pos) {
            Some(i) => {
                proof {
                    lemma_view_at(self.chunk_states@, i as int);
                }
                i
            },
            None => {
                proof {
                    lemma_view_push(self.chunk_states@, chunk_pos, fresh_state());
                }
                self.chunk_states.push((chunk_pos, ChunkWaterSleepState::new()));
                self.chunk_states.len() - 1
            },
        };
        let ghost e0 = self.chunk_states@;
        let entry = &mut self.chunk_states[idx];
        proof {
            lemma_view_update(e0, idx as int, (*final(entry)).1);
        }
        &mut entry.1
    }

    /// The sleep state of `chunk_pos`, if it has one.
    pub fn get(&self, chunk_pos: &IVec3) -> (r: Option<&ChunkWaterSleepState>)
        requires
            self.wf(),
        ensures
            r matches Some(s) ==> self@.contains_key(*chunk_pos) && *s == self@[*chunk_pos],
            r is None ==> !self@.contains_key(*chunk_pos),
    {
        match find_entry(&self.chunk_states, chunk_pos) {
            Some(i) => {
                proof {
                    lemma_view_at(self.chunk_states@, i as int);
                }
                Some(&self.chunk_states[i].1)
            },
            None => None,
        }
    }

    /// Whether the chunk should be simulated: chunks without a state are
    /// simulated, chunks with one unless they are asleep.
    pub fn should_simulate(&self, chunk_pos: &IVec3) -> (r: bool)
        requires
            self.wf(),
        ensures
            r == (!self@.contains_key(*chunk_pos) || self@[*chunk_pos].state
                != WaterSleepState::Asleep),
    {
        match self.get(chunk_pos) {
            Some(s) => s.should_simulate(),
            None => true,
        }
    }

    /// Whether the chunk has a state and it is asleep.
    pub fn is_sleeping(&self, chunk_pos: &IVec3) -> (r: bool)
        requires
            self.wf(),
        ensures
            r == (self@.contains_key(*chunk_pos) && self@[*chunk_pos].state
                == WaterSleepState::Asleep),
    {
        match self.get(chunk_pos) {
            Some(s) => s.is_asleep(),
            None => false,
        }
    }

    /// Records simulation activity for a chunk, creating its state if needed.
    pub fn record_activity(&mut self, chunk_pos: IVec3, volume_calm: bool, flow_count: usize)
        requires
            old(self).wf(),
            old(self)@.contains_key(chunk_pos) ==> old(self)@[chunk_pos].generation < u64::MAX,
        ensures
            final(self).wf(),
            final(self)@ == old(self)@.insert(
                chunk_pos,
                record_spec(
                    if old(self)@.contains_key(chunk_pos) {
                        old(self)@[chunk_pos]
                    } else {
                        fresh_state()
                    },
                    volume_calm,
                    flow_count,
                ),
            ),
            final(self).recently_woken == old(self).recently_woken,
            final(self).recently_slept == old(self).recently_slept,
            final(self).stats == old(self).stats,
    {
        let state = self.get_or_create(chunk_pos);
        state.record_activity(volume_calm, flow_count);
    }

    /// Wakes one chunk if it has a state, recording it as woken if it was asleep.
    fn wake_one(&mut self, chunk_pos: IVec3, reason: &str)
        requires
            old(self).wf(),
        ensures
            final(self).wf(),
            final(self)@ == (if old(self)@.contains_key(chunk_pos) {
                old(self)@.insert(chunk_pos, wake_spec(old(self)@[chunk_pos]))
            } else {
                old(self)@
            }),
            forall|x: IVec3|
                #![trigger final(self).recently_woken@.contains(x)]
                final(self).recently_woken@.contains(x) <==> (old(self).recently_woken@.contains(x)
                    || (x == chunk_pos && old(self)@.contains_key(x) && old(self)@[x].state
                    == WaterSleepState::Asleep)),
            final(self).recently_slept == old(self).recently_slept,
            final(self).stats == old(self).stats,
    {
        match find_entry(&self.chunk_states, &chunk_pos) {
            Some(i) => {
                proof {
                    lemma_view_at(self.chunk_states@, i as int);
                }
                let mut state = self.chunk_states[i].1;
                if state.is_asleep() {
                    insert_pos(&mut self.recently_woken, chunk_pos);
                }
                state.wake(chunk_pos, reason);
                proof {
                    lemma_view_update(self.chunk_states@, i as int, state);
                }
                self.chunk_states.set(i, (chunk_pos, state));
            },
            None => {},
        }
    }

    /// Wakes a chunk and, if `wake_neighbors`, every chunk within
    /// `WAKE_RADIUS_CHUNKS` of it; chunks without a state are left alone.
    /// Each chunk that was asleep is recorded in `recently_woken`.
    pub fn wake_chunk(&mut self, chunk_pos: IVec3, reason: &str, wake_neighbors: bool)
        requires
            old(self).wf(),
            wake_neighbors ==> {
                &&& i32::MIN + WAKE_RADIUS_CHUNKS <= chunk_pos.x <= i32::MAX - WAKE_RADIUS_CHUNKS
                &&& i32::MIN + WAKE_RADIUS_CHUNKS <= chunk_pos.y <= i32::MAX - WAKE_RADIUS_CHUNKS
                &&& i32::MIN + WAKE_RADIUS_CHUNKS <= chunk_pos.z <= i32::MAX - WAKE_RADIUS_CHUNKS
            },
        ensures
            final(self).wf(),
            final(self)@.dom() == old(self)@.dom(),
            forall|k: IVec3|
                #![trigger final(self)@[k]]
                old(self)@.contains_key(k) ==> final(self)@[k] == (if in_wake_area(
                    k,
                    chunk_pos,
                    wake_neighbors,
                ) {
                    wake_spec(old(self)@[k])
                } else {
                    old(self)@[k]
                }),
            forall|x: IVec3|
                #![trigger final(self).recently_woken@.contains(x)]
                final(self).recently_woken@.contains(x) <==> (old(self).recently_woken@.contains(x)
                    || (old(self)@.contains_key(x) && in_wake_area(x, chunk_pos, wake_neighbors)
                    && old(self)@[x].state == WaterSleepState::Asleep)),
            final(self).recently_slept == old(self).recently_slept,
            final(self).stats == old(self).stats,
    {
        let ghost v0 = self@;
        let ghost w0 = self.recently_woken@;
        self.wake_one(chunk_pos, reason);
        if wake_neighbors {
            let mut dx: i32 = -WAKE_RADIUS_CHUNKS;
            while dx <= WAKE_RADIUS_CHUNKS
                invariant
                    -WAKE_RADIUS_CHUNKS <= dx <= WAKE_RADIUS_CHUNKS + 1,
                    wake_neighbors,
                    i32::MIN + WAKE_RADIUS_CHUNKS <= chunk_pos.x <= i32::MAX - WAKE_RADIUS_CHUNKS,
                    i32::MIN + WAKE_RADIUS_CHUNKS <= chunk_pos.y <= i32::MAX - WAKE_RADIUS_CHUNKS,
                    i32::MIN + WAKE_RADIUS_CHUNKS <= chunk_pos.z <= i32::MAX - WAKE_RADIUS_CHUNKS,
                    self.wf(),
                    self@.dom() == v0.dom(),
                    wake_progress(
                        self@,
                        self.recently_woken@,
                        v0,
                        w0,
                        chunk_pos,
                        wake_neighbors,
                        dx as int,
                        -WAKE_RADIUS_CHUNKS as int,
                        -WAKE_RADIUS_CHUNKS as int,
                    ),
                    self.recently_slept == old(self).recently_slept,
                    self.stats == old(self).stats,
                decreases WAKE_RADIUS_CHUNKS + 1 - dx,
            {
                let mut dy: i32 = -WAKE_RADIUS_CHUNKS;
                while dy <= WAKE_RADIUS_CHUNKS
                    invariant
                        -WAKE_RADIUS_CHUNKS <= dx <= WAKE_RADIUS_CHUNKS,
                        -WAKE_RADIUS_CHUNKS <= dy <= WAKE_RADIUS_CHUNKS + 1,
                        wake_neighbors,
                        i32::MIN + WAKE_RADIUS_CHUNKS <= chunk_pos.x <= i32::MAX - WAKE_RADIUS_CHUNKS,
                        i32::MIN + WAKE_RADIUS_CHUNKS <= chunk_pos.y <= i32::MAX - WAKE_RADIUS_CHUNKS,
                        i32::MIN + WAKE_RADIUS_CHUNKS <= chunk_pos.z <= i32::MAX - WAKE_RADIUS_CHUNKS,
                        self.wf(),
                        self@.dom() == v0.dom(),
                        wake_progress(
                            self@,
                            self.recently_woken@,
                            v0,
                            w0,
                            chunk_pos,
                            wake_neighbors,
                            dx as int,
                            dy as int,
                            -WAKE_RADIUS_CHUNKS as int,
                        ),
                        self.recently_slept == old(self).recently_slept,
                        self.stats == old(self).stats,
                    decreases WAKE_RADIUS_CHUNKS + 1 - dy,
                {
                    let mut dz: i32 = -WAKE_RADIUS_CHUNKS;
                    while dz <= WAKE_RADIUS_CHUNKS
                        invariant
                            -WAKE_RADIUS_CHUNKS <= dx <= WAKE_RADIUS_CHUNKS,
                            -WAKE_RADIUS_CHUNKS <= dy <= WAKE_RADIUS_CHUNKS,
                            -WAKE_RADIUS_CHUNKS <= dz <= WAKE_RADIUS_CHUNKS + 1,
                            wake_neighbors,
                            i32::MIN + WAKE_RADIUS_CHUNKS <= chunk_pos.x <= i32::MAX
                                - WAKE_RADIUS_CHUNKS,
                            i32::MIN + WAKE_RADIUS_CHUNKS <= chunk_pos.y <= i32::MAX
                                - WAKE_RADIUS_CHUNKS,
                            i32::MIN + WAKE_RADIUS_CHUNKS <= chunk_pos.z <= i32::MAX
                                - WAKE_RADIUS_CHUNKS,
                            self.wf(),
                            self@.dom() == v0.dom(),
                            wake_progress(
                                self@,
                                self.recently_woken@,
                                v0,
                                w0,
                                chunk_pos,
                                wake_neighbors,
                                dx as int,
                                dy as int,
                                dz as int,
                            ),
                            self.recently_slept == old(self).recently_slept,
                            self.stats == old(self).stats,
                        decreases WAKE_RADIUS_CHUNKS + 1 - dz,
                    {
                        if !(dx == 0 && dy == 0 && dz == 0) {
                            let neighbor = chunk_pos.add(IVec3::new(dx, dy, dz));
                            let ghost before = self@;
                            let ghost wbefore = self.recently_woken@;
                            assert(forall|x: IVec3|
                                wbefore.contains(x) <==> (w0.contains(x) || (v0.contains_key(x)
                                    && wake_done(x, chunk_pos, wake_neighbors, dx as int, dy as int, dz as int)
                                    && v0[x].state == WaterSleepState::Asleep)));
                            assert(forall|k: IVec3| v0.contains_key(k) ==> before[k] == (if wake_done(
                                k, chunk_pos, wake_neighbors, dx as int, dy as int, dz as int) {
                                    wake_spec(v0[k])
                                } else {
                                    v0[k]
                                }));
                            self.wake_one(neighbor, "neighbor terrain change");
                            proof {
                                assert forall|x: IVec3|
                                    wake_done(x, chunk_pos, wake_neighbors, dx as int, dy as int, dz + 1)
                                        == (wake_done(x, chunk_pos, wake_neighbors, dx as int, dy as int, dz as int)
                                        || x == neighbor) by {
                                    if x.x == neighbor.x && x.y == neighbor.y && x.z == neighbor.z {
                                        assert(x == neighbor);
                                    }
                                }
                                assert forall|k: IVec3|
                                    #![trigger self@[k]]
                                    v0.contains_key(k) implies self@[k] == (if wake_done(
                                        k,
                                        chunk_pos,
                                        wake_neighbors,
                                        dx as int,
                                        dy as int,
                                        dz + 1,
                                    ) {
                                        wake_spec(v0[k])
                                    } else {
                                        v0[k]
                                    }) by {
                                    if k == neighbor {
                                        assert(before[k] == v0[k]);
                                    } else {
                                        assert(before[k] == self@[k]);
                                    }
                                }
                                assert forall|x: IVec3|
                                    self.recently_woken@.contains(x) <==> (w0.contains(x) || (
                                    v0.contains_key(x) && wake_done(
                                        x,
                                        chunk_pos,
                                        wake_neighbors,
                                        dx as int,
                                        dy as int,
                                        dz + 1,
                                    ) && v0[x].state == WaterSleepState::Asleep)) by {
                                    if x == neighbor && v0.contains_key(x) {
                                        assert(before[x] == v0[x]);
                                    }
                                    assert(wbefore.contains(x) <==> (w0.contains(x) || (v0.contains_key(x)
                                        && wake_done(x, chunk_pos, wake_neighbors, dx as int, dy as int, dz as int)
                                        && v0[x].state == WaterSleepState::Asleep)));
                                }
                            }
                        } else {
                            proof {
                                assert forall|k: IVec3|
                                    #![trigger self@[k]]
                                    v0.contains_key(k) implies self@[k] == (if wake_done(
                                        k,
                                        chunk_pos,
                                        wake_neighbors,
                                        dx as int,
                                        dy as int,
                                        dz + 1,
                                    ) {
                                        wake_spec(v0[k])
                                    } else {
                                        v0[k]
                                    }) by {
                                    assert(wake_done(k, chunk_pos, wake_neighbors, dx as int, dy as int, dz + 1)
                                        == wake_done(k, chunk_pos, wake_neighbors, dx as int, dy as int, dz as int));
                                }
                                assert forall|x: IVec3|
                                    wake_done(x, chunk_pos, wake_neighbors, dx as int, dy as int, dz + 1)
                                        == wake_done(x, chunk_pos, wake_neighbors, dx as int, dy as int, dz as int) by {
                                    if x.x == chunk_pos.x && x.y == chunk_pos.y && x.z == chunk_pos.z {
                                        assert(x == chunk_pos);
                                    }
                                }
                            }
                        }
                        dz += 1;
                    }
                    dy += 1;
                }
                dx += 1;
            }
        } else {
            proof {
                assert forall|k: IVec3|
                    #![trigger self@[k]]
                    v0.contains_key(k) implies self@[k] == (if in_wake_area(
                        k,
                        chunk_pos,
                        wake_neighbors,
                    ) {
                        wake_spec(v0[k])
                    } else {
                        v0[k]
                    }) by {}
            }
        }
    }

    /// Number of chunks that are asleep once every state is updated.
    pub closed spec fn num_asleep_after_update(&self) -> nat {
        count_state(updated_entries(self.chunk_states@), WaterSleepState::Asleep)
    }

    /// Wakes every chunk near a global block position: the chunk that
    /// contains it and all chunks within `WAKE_RADIUS_CHUNKS` of that chunk.
    pub fn wake_near_position(&mut self, global_pos: IVec3, reason: &str)
        requires
            old(self).wf(),
        ensures
            final(self).wf(),
            final(self)@.dom() == old(self)@.dom(),
            forall|k: IVec3|
                #![trigger final(self)@[k]]
                old(self)@.contains_key(k) ==> final(self)@[k] == (if in_wake_area(
                    k,
                    IVec3 {
                        x: (global_pos.x / crate::coords::CHUNK_SIZE) as i32,
                        y: (global_pos.y / crate::coords::CHUNK_SIZE) as i32,
                        z: (global_pos.z / crate::coords::CHUNK_SIZE) as i32,
                    },
                    true,
                ) {
                    wake_spec(old(self)@[k])
                } else {
                    old(self)@[k]
                }),
            forall|x: IVec3|
                #![trigger final(self).recently_woken@.contains(x)]
                final(self).recently_woken@.contains(x) <==> (old(self).recently_woken@.contains(x)
                    || (old(self)@.contains_key(x) && in_wake_area(
                    x,
                    IVec3 {
                        x: (global_pos.x / crate::coords::CHUNK_SIZE) as i32,
                        y: (global_pos.y / crate::coords::CHUNK_SIZE) as i32,
                        z: (global_pos.z / crate::coords::CHUNK_SIZE) as i32,
                    },
                    true,
                ) && old(self)@[x].state == WaterSleepState::Asleep)),
            final(self).recently_slept == old(self).recently_slept,
            final(self).stats == old(self).stats,
    {
        let chunk_pos = IVec3::new(
            div_euclid_chunk(global_pos.x),
            div_euclid_chunk(global_pos.y),
            div_euclid_chunk(global_pos.z),
        );
        self.wake_chunk(chunk_pos, reason, true);
    }

    /// Advances every chunk's sleep state by one tick, records the chunks
    /// that fell asleep, clears the list of woken chunks and recounts the
    /// statistics; each sleeping chunk adds one saved tick.
    pub fn update_all(&mut self)
        requires
            old(self).wf(),
            forall|k: IVec3| old(self)@.contains_key(k) ==> update_ok(#[trigger] old(self)@[k]),
            old(self).stats.ticks_saved + old(self).num_asleep_after_update() <= u64::MAX,
        ensures
            final(self).wf(),
            final(self)@.dom() == old(self)@.dom(),
            forall|k: IVec3|
                #![trigger final(self)@[k]]
                old(self)@.contains_key(k) ==> final(self)@[k] == update_spec(old(self)@[k]),
            final(self).recently_woken@ == Seq::<IVec3>::empty(),
            forall|x: IVec3|
                final(self).recently_slept@.contains(x) <==> (old(self)@.contains_key(x)
                    && old(self)@[x].state != WaterSleepState::Asleep && update_spec(
                    old(self)@[x],
                ).state == WaterSleepState::Asleep),
            final(self).stats.sleeping_chunks == final(self).num_in_state(WaterSleepState::Asleep),
            final(self).stats.awake_chunks == final(self).num_in_state(WaterSleepState::Awake),
            final(self).stats.waking_chunks == final(self).num_in_state(WaterSleepState::Waking),
            final(self).stats.ticks_saved == old(self).stats.ticks_saved + final(self).num_in_state(
                WaterSleepState::Asleep,
            ),
    {
        let ghost e0 = self.chunk_states@;
        self.recently_woken = Vec::new();
        self.recently_slept = Vec::new();
        let mut sleeping: usize = 0;
        let mut awake: usize = 0;
        let mut waking: usize = 0;
        let mut i: usize = 0;
        proof {
            assert forall|t: int| 0 <= t < e0.len() implies update_ok(#[trigger] e0[t].1) by {
                lemma_view_at(e0, t);
            }
        }
        while i < self.chunk_states.len()
            invariant
                self.chunk_states@.len() == e0.len(),
                i <= e0.len(),
                keys_unique(e0),
                forall|t: int| 0 <= t < e0.len() ==> update_ok(#[trigger] e0[t].1),
                forall|t: int|
                    #![trigger self.chunk_states@[t]]
                    0 <= t < i ==> self.chunk_states@[t] == (e0[t].0, update_spec(e0[t].1)),
                forall|t: int|
                    #![trigger self.chunk_states@[t]]
                    i <= t < e0.len() ==> self.chunk_states@[t] == e0[t],
                sleeping == count_state(updated_entries(e0).take(i as int), WaterSleepState::Asleep),
                awake == count_state(updated_entries(e0).take(i as int), WaterSleepState::Awake),
                waking == count_state(updated_entries(e0).take(i as int), WaterSleepState::Waking),
                no_duplicates(self.recently_slept@),
                self.recently_woken@ == Seq::<IVec3>::empty(),
                forall|x: IVec3|
                    #![trigger self.recently_slept@.contains(x)]
                    self.recently_slept@.contains(x) <==> exists|t: int|
                        0 <= t < i && e0[t].0 == x && e0[t].1.state != WaterSleepState::Asleep
                            && #[trigger] update_spec(e0[t].1).state == WaterSleepState::Asleep,
                self.stats == old(self).stats,
            decreases e0.len() - i,
        {
            let (pos, mut state) = self.chunk_states[i];
            let was_asleep = state.is_asleep();
            state.update();
            let is_asleep = state.is_asleep();
            let ghost slept_before = self.recently_slept@;
            if !was_asleep && is_asleep {
                insert_pos(&mut self.recently_slept, pos);
            }
            proof {
                let u = updated_entries(e0);
                assert(u.take(i + 1) =~= u.take(i as int).push(u[i as int]));
                lemma_count_push(u.take(i as int), u[i as int], WaterSleepState::Asleep);
                lemma_count_push(u.take(i as int), u[i as int], WaterSleepState::Awake);
                lemma_count_push(u.take(i as int), u[i as int], WaterSleepState::Waking);
                lemma_count_bound(u.take(i as int), WaterSleepState::Asleep);
                lemma_count_bound(u.take(i as int), WaterSleepState::Awake);
                lemma_count_bound(u.take(i as int), WaterSleepState::Waking);
                assert forall|x: IVec3|
                    #![trigger self.recently_slept@.contains(x)]
                    self.recently_slept@.contains(x) <==> exists|t: int|
                        0 <= t < i + 1 && e0[t].0 == x && e0[t].1.state != WaterSleepState::Asleep
                            && #[trigger] update_spec(e0[t].1).state == WaterSleepState::Asleep by {
                    if exists|t: int|
                        0 <= t < i + 1 && e0[t].0 == x && e0[t].1.state != WaterSleepState::Asleep
                            && #[trigger] update_spec(e0[t].1).state == WaterSleepState::Asleep {
                        let t = choose|t: int|
                            0 <= t < i + 1 && e0[t].0 == x && e0[t].1.state
                                != WaterSleepState::Asleep && #[trigger] update_spec(e0[t].1).state
                                == WaterSleepState::Asleep;
                        if t < i {
                            assert(slept_before.contains(x));
                        }
                    }
                    if slept_before.contains(x) {
                        let t = choose|t: int|
                            0 <= t < i && e0[t].0 == x && e0[t].1.state != WaterSleepState::Asleep
                                && #[trigger] update_spec(e0[t].1).state == WaterSleepState::Asleep;
                        assert(0 <= t < i + 1);
                    }
                }
            }
            match state.state {
                WaterSleepState::Asleep => sleeping += 1,
                WaterSleepState::Awake => awake += 1,
                WaterSleepState::Waking => waking += 1,
            }
            self.chunk_states.set(i, (pos, state));
            i += 1;
        }
        proof {
            let u = updated_entries(e0);
            assert(self.chunk_states@ =~= u);
            assert(u.take(e0.len() as int) =~= u);
            lemma_view_updated(e0);
            assert forall|x: IVec3|
                self.recently_slept@.contains(x) <==> (entries_view(e0).contains_key(x)
                    && entries_view(e0)[x].state != WaterSleepState::Asleep && update_spec(
                    entries_view(e0)[x],
                ).state == WaterSleepState::Asleep) by {
                if entries_view(e0).contains_key(x) {
                    let t = choose|t: int| 0 <= t < e0.len() && e0[t].0 == x;
                    lemma_view_at(e0, t);
                }
                if self.recently_slept@.contains(x) {
                    let t = choose|t: int|
                        0 <= t < e0.len() && e0[t].0 == x && e0[t].1.state != WaterSleepState::Asleep
                            && #[trigger] update_spec(e0[t].1).state == WaterSleepState::Asleep;
                    lemma_view_at(e0, t);
                }
            }
        }
        self.stats.ticks_saved = self.stats.ticks_saved + sleeping as u64;
        self.stats.sleeping_chunks = sleeping;
        self.stats.awake_chunks = awake;
        self.stats.waking_chunks = waking;
    }

    /// Forgets the state of every chunk that is not listed as holding water.
    pub fn cleanup_empty_chunks(&mut self, chunks_with_water: &Vec<IVec3>)
        requires
            old(self).wf(),
        ensures
            final(self).wf(),
            forall|k: IVec3|
                final(self)@.contains_key(k) <==> (old(self)@.contains_key(k)
                    && chunks_with_water@.contains(k)),
            forall|k: IVec3|
                #![trigger final(self)@[k]]
                final(self)@.contains_key(k) ==> final(self)@[k] == old(self)@[k],
            final(self).recently_woken == old(self).recently_woken,
            final(self).recently_slept == old(self).recently_slept,
            final(self).stats == old(self).stats,
    {
        let ghost e0 = self.chunk_states@;
        let mut kept: Vec<(IVec3, ChunkWaterSleepState)> = Vec::new();
        let ghost mut idx: Seq<int> = Seq::empty();
        let mut i: usize = 0;
        while i < self.chunk_states.len()
            invariant
                self.chunk_states@ == e0,
                keys_unique(e0),
                i <= e0.len(),
                idx.len() == kept@.len(),
                forall|j: int| 0 <= j < idx.len() ==> 0 <= #[trigger] idx[j] < i,
                forall|j: int| 0 <= j < idx.len() ==> kept@[j] == e0[#[trigger] idx[j]],
                forall|j1: int, j2: int|
                    0 <= j1 < j2 < idx.len() ==> #[trigger] idx[j1] < #[trigger] idx[j2],
                forall|j: int| 0 <= j < idx.len() ==> chunks_with_water@.contains(#[trigger] kept@[j].0),
                forall|t: int|
                    0 <= t < i && chunks_with_water@.contains(#[trigger] e0[t].0) ==> exists|j: int|
                        0 <= j < idx.len() && idx[j] == t,
            decreases e0.len() - i,
        {
            if contains_pos(chunks_with_water, &self.chunk_states[i].0) {
                kept.push(self.chunk_states[i]);
                proof {
                    let old_idx = idx;
                    idx = idx.push(i as int);
                    assert forall|t: int|
                        0 <= t < i + 1 && chunks_with_water@.contains(#[trigger] e0[t].0) implies exists|j: int|
                            0 <= j < idx.len() && idx[j] == t by {
                        if t == i {
                            assert(idx[idx.len() - 1] == t);
                        } else {
                            let j = choose|j: int| 0 <= j < old_idx.len() && old_idx[j] == t;
                            assert(idx[j] == t);
                        }
                    }
                }
            }
            i += 1;
        }
        proof {
            let k0 = kept@;
            assert forall|j1: int, j2: int|
                0 <= j1 < k0.len() && 0 <= j2 < k0.len() && j1 != j2 implies k0[j1].0 != k0[j2].0 by {
                if j1 < j2 {
                    assert(idx[j1] < idx[j2]);
                } else {
                    assert(idx[j2] < idx[j1]);
                }
            }
            assert forall|k: IVec3| has_key(k0, k) <==> (has_key(e0, k) && chunks_with_water@.contains(k)) by {
                if has_key(k0, k) {
                    let j = choose|j: int| 0 <= j < k0.len() && k0[j].0 == k;
                    assert(e0[idx[j]].0 == k);
                }
                if has_key(e0, k) && chunks_with_water@.contains(k) {
                    let t = choose|t: int| 0 <= t < e0.len() && e0[t].0 == k;
                    let j = choose|j: int| 0 <= j < idx.len() && idx[j] == t;
                    assert(k0[j].0 == k);
                }
            }
            assert forall|k: IVec3| #[trigger] has_key(k0, k) implies entries_view(k0)[k] == entries_view(e0)[k] by {
                let j = choose|j: int| 0 <= j < k0.len() && k0[j].0 == k;
                lemma_view_at(k0, j);
                lemma_view_at(e0, idx[j]);
            }
        }
        self.chunk_states = kept;
    }

    /// A one-line summary of the sleep statistics.
    pub fn summary(&self) -> (r: String)
        ensures
            r@ == sleep_summary_text(
                self.stats.sleeping_chunks as nat,
                self.stats.awake_chunks as nat,
                self.stats.waking_chunks as nat,
                self.stats.ticks_saved as nat,
            ),
    {
        let mut s = String::from_str("Water Sleep: ");
        s.append(decimal_string(self.stats.sleeping_chunks as u64).as_str());
        s.append(" sleeping, ");
        s.append(decimal_string(self.stats.awake_chunks as u64).as_str());
        s.append(" awake, ");
        s.append(decimal_string(self.stats.waking_chunks as u64).as_str());
        s.append(" waking (saved ");
        s.append(decimal_string(self.stats.ticks_saved).as_str());
        s.append(" ticks total)");
        s
    }
}

/// Whether the chunk's water should be simulated (it is not asleep).
pub fn should_simulate_chunk(sleep_manager: &WaterSleepManager, chunk_pos: &IVec3) -> (r: bool)
    requires
        sleep_manager.wf(),
    ensures
        r == (!sleep_manager@.contains_key(*chunk_pos) || sleep_manager@[*chunk_pos].state
            != WaterSleepState::Asleep),
{
    sleep_manager.should_simulate(chunk_pos)
}

/// Records flow activity of a chunk for sleep detection.
pub fn record_chunk_flow_activity(
    sleep_manager: &mut WaterSleepManager,
    chunk_pos: IVec3,
    volume_calm: bool,
    flow_count: usize,
)
    requires
        old(sleep_manager).wf(),
        old(sleep_manager)@.contains_key(chunk_pos) ==> old(sleep_manager)@[chunk_pos].generation
            < u64::MAX,
    ensures
        final(sleep_manager).wf(),
        final(sleep_manager)@ == old(sleep_manager)@.insert(
            chunk_pos,
            record_spec(
                if old(sleep_manager)@.contains_key(chunk_pos) {
                    old(sleep_manager)@[chunk_pos]
                } else {
                    fresh_state()
                },
                volume_calm,
                flow_count,
            ),
        ),
        final(sleep_manager).recently_woken == old(sleep_manager).recently_woken,
        final(sleep_manager).recently_slept == old(sleep_manager).recently_slept,
        final(sleep_manager).stats == old(sleep_manager).stats,
{
    sleep_manager.record_activity(chunk_pos, volume_calm, flow_count);
}

/// Wakes water near a global position (for example when water is added from outside).
pub fn wake_water_at(sleep_manager: &mut WaterSleepManager, global_pos: IVec3)
    requires
        old(sleep_manager).wf(),
    ensures
        final(sleep_manager).wf(),
        final(sleep_manager)@.dom() == old(sleep_manager)@.dom(),
        forall|k: IVec3|
            #![trigger final(sleep_manager)@[k]]
            old(sleep_manager)@.contains_key(k) ==> final(sleep_manager)@[k] == (if in_wake_area(
                k,
                IVec3 {
                    x: (global_pos.x / crate::coords::CHUNK_SIZE) as i32,
                    y: (global_pos.y / crate::coords::CHUNK_SIZE) as i32,
                    z: (global_pos.z / crate::coords::CHUNK_SIZE) as i32,
                },
                true,
            ) {
                wake_spec(old(sleep_manager)@[k])
            } else {
                old(sleep_manager)@[k]
            }),
        final(sleep_manager).recently_slept == old(sleep_manager).recently_slept,
        final(sleep_manager).stats == old(sleep_manager).stats,
{
    sleep_manager.wake_near_position(global_pos, "external water change");
}

} // verus!
