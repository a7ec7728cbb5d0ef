//! Choice of the chunks sent to a player in one world update.
use vstd::prelude::*;

use crate::geometry::IVec3;
use crate::pos_set::{contains_pos, no_duplicates};
use crate::server_chunk::{PlayerId, PlayerSet};

verus! {

/// Maximum number of chunks sent to a client per update.
pub const MAX_CHUNKS_PER_UPDATE: usize = 50;

/// Chunks sent per unit of render distance (48 per tick at the default distance of 8).
pub const CHUNKS_PER_RENDER_DISTANCE: i32 = 6;

/// Render distance of a server started without one.
pub const DEFAULT_RENDER_DISTANCE: i32 = 8;

/// Smallest render distance a server accepts.
pub const MIN_RENDER_DISTANCE: i32 = 1;

/// Largest render distance a server accepts.
pub const MAX_RENDER_DISTANCE: i32 = 32;

/// Whether a server may run with this render distance: negative values
/// would give meaningless chunk ranges and very large ones too much work.
pub fn is_valid_render_distance(render_distance: i32) -> (r: bool)
    ensures
        r == (MIN_RENDER_DISTANCE <= render_distance <= MAX_RENDER_DISTANCE),
{
    !(render_distance < MIN_RENDER_DISTANCE || render_distance > MAX_RENDER_DISTANCE)
}

/// `v * CHUNKS_PER_RENDER_DISTANCE`, saturated to the `i32` range.
pub open spec fn saturating_scale(v: i32) -> int {
    let p = v * CHUNKS_PER_RENDER_DISTANCE;
    if p > i32::MAX {
        i32::MAX as int
    } else if p < i32::MIN {
        i32::MIN as int
    } else {
        p
    }
}

/// Number of chunks that may be sent per update for a render distance: six
/// per unit of distance (saturating), at most `MAX_CHUNKS_PER_UPDATE`,
/// converted to `usize` as an `as` cast does.
pub open spec fn chunk_limit_spec(broadcast_render_distance: i32) -> usize {
    let s = saturating_scale(broadcast_render_distance);
    let m = if s < MAX_CHUNKS_PER_UPDATE { s } else { MAX_CHUNKS_PER_UPDATE as int };
    (m as i32) as usize
}

/// Number of chunks that may be sent to a player in one update.
pub fn chunk_limit(broadcast_render_distance: i32) -> (r: usize)
    ensures
        r == chunk_limit_spec(broadcast_render_distance),
{
    let scaled = match broadcast_render_distance.checked_mul(CHUNKS_PER_RENDER_DISTANCE) {
        Some(v) => v,
        None => if broadcast_render_distance > 0 {
            i32::MAX
        } else {
            i32::MIN
        },
    };
    let m = if scaled < MAX_CHUNKS_PER_UPDATE as i32 {
        scaled
    } else {
        MAX_CHUNKS_PER_UPDATE as i32
    };
    m as usize
}

/// The chunks chosen among the first `n` active chunks: in order, each
/// chunk that exists and was not yet sent to the player, skipping repeats,
/// until `limit` chunks are chosen.
pub open spec fn send_plan(
    active: Seq<IVec3>,
    exists: Seq<bool>,
    already_sent: Seq<bool>,
    limit: usize,
    n: nat,
) -> Seq<IVec3>
    decreases n,
{
    if n == 0 {
        seq![]
    } else {
        let p = send_plan(active, exists, already_sent, limit, (n - 1) as nat);
        let i = n - 1;
        if p.len() >= limit {
            p
        } else if exists[i] && !already_sent[i] && !p.contains(active[i]) {
            p.push(active[i])
        } else {
            p
        }
    }
}

/// Chooses the chunks to send to a player, given for each active chunk
/// (nearest first) whether the world holds it and whether it was already
/// sent to this player. Stops once `chunk_limit` chunks are chosen.
pub fn select_chunks_to_send(
    active_chunks: &Vec<IVec3>,
    exists: &Vec<bool>,
    already_sent: &Vec<bool>,
    chunk_limit: usize,
) -> (r: Vec<IVec3>)
    requires
        exists@.len() == active_chunks@.len(),
        already_sent@.len() == active_chunks@.len(),
    ensures
        r@ == send_plan(active_chunks@, exists@, already_sent@, chunk_limit, active_chunks@.len()),
        r@.len() <= chunk_limit,
{
    let mut chosen: Vec<IVec3> = Vec::new();
    let mut i: usize = 0;
    while i < active_chunks.len()
        invariant_except_break
            chosen@ == send_plan(active_chunks@, exists@, already_sent@, chunk_limit, i as nat),
        invariant
            i <= active_chunks@.len(),
            exists@.len() == active_chunks@.len(),
            already_sent@.len() == active_chunks@.len(),
            chosen@.len() <= chunk_limit,
        ensures
            chosen@ == send_plan(
                active_chunks@,
                exists@,
                already_sent@,
                chunk_limit,
                active_chunks@.len(),
            ),
        decreases active_chunks@.len() - i,
    {
        if chosen.len() >= chunk_limit {
            proof {
                lemma_plan_saturated(
                    active_chunks@,
                    exists@,
                    already_sent@,
                    chunk_limit,
                    i as nat,
                    active_chunks@.len(),
                );
            }
            break;
        }
        let c = active_chunks[i];
        if exists[i] && !already_sent[i] && !contains_pos(&chosen, &c) {
            chosen.push(c);
        }
        i += 1;
    }
    chosen
}

proof fn lemma_plan_saturated(
    active: Seq<IVec3>,
    exists: Seq<bool>,
    already_sent: Seq<bool>,
    limit: usize,
    n: nat,
    m: nat,
)
    requires
        n <= m,
        send_plan(active, exists, already_sent, limit, n).len() >= limit,
    ensures
        send_plan(active, exists, already_sent, limit, m) == send_plan(
            active,
            exists,
            already_sent,
            limit,
            n,
        ),
    decreases m - n,
{
    if m > n {
        lemma_plan_saturated(active, exists, already_sent, limit, n, (m - 1) as nat);
    }
}

/// A world update sends each chosen chunk once, and only chunks that the
/// world holds and that were not sent to the player before.
pub proof fn lemma_send_plan_sound(
    active: Seq<IVec3>,
    exists: Seq<bool>,
    already_sent: Seq<bool>,
    limit: usize,
    n: nat,
)
    requires
        n <= active.len(),
        exists.len() == active.len(),
        already_sent.len() == active.len(),
    ensures
        no_duplicates(send_plan(active, exists, already_sent, limit, n)),
        send_plan(active, exists, already_sent, limit, n).len() <= limit,
        forall|k: int|
            0 <= k < send_plan(active, exists, already_sent, limit, n).len() ==> exists|i: int|
                0 <= i < n && active[i] == #[trigger] send_plan(
                    active,
                    exists,
                    already_sent,
                    limit,
                    n,
                )[k] && exists[i] && !already_sent[i],
    decreases n,
{
    if n > 0 {
        let m = (n - 1) as nat;
        lemma_send_plan_sound(active, exists, already_sent, limit, m);
        let p = send_plan(active, exists, already_sent, limit, m);
        let q = send_plan(active, exists, already_sent, limit, n);
        assert forall|k: int| 0 <= k < q.len() implies exists|i: int|
            0 <= i < n && active[i] == #[trigger] q[k] && exists[i] && !already_sent[i] by {
            if k < p.len() {
                assert(q[k] == p[k]);
                let i = choose|i: int| 0 <= i < m && active[i] == p[k] && exists[i] && !already_sent[i];
                assert(0 <= i < n && active[i] == q[k] && exists[i] && !already_sent[i]);
            } else {
                assert(active[m as int] == q[k]);
            }
        }
        if q.len() > p.len() {
            assert forall|a: int, b: int| 0 <= a < q.len() && 0 <= b < q.len() && a != b implies q[a] != q[b] by {
                if a < p.len() && b < p.len() {
                    assert(q[a] == p[a] && q[b] == p[b]);
                } else if a < p.len() {
                    assert(q[a] == p[a]);
                    assert(p.contains(p[a]));
                } else {
                    assert(q[b] == p[b]);
                    assert(p.contains(p[b]));
                }
            }
        }
    }
}

/// The players each held chunk was sent to, with the record of every chunk
/// that is active for this update and changed since the last one cleared,
/// so that it goes out again to every player.
pub open spec fn cleared_sets(
    positions: Seq<IVec3>,
    sets: Seq<Set<PlayerId>>,
    active: Seq<IVec3>,
    changed: Seq<IVec3>,
) -> Seq<Set<PlayerId>> {
    Seq::new(
        sets.len(),
        |j: int|
            if active.contains(positions[j]) && changed.contains(positions[j]) {
                Set::empty()
            } else {
                sets[j]
            },
    )
}

/// Whether, by the record `sets`, the chunk at `p` was sent to `player`.
pub open spec fn sent_to(
    positions: Seq<IVec3>,
    sets: Seq<Set<PlayerId>>,
    p: IVec3,
    player: PlayerId,
) -> bool {
    exists|j: int| 0 <= j < positions.len() && positions[j] == p && sets[j].contains(player)
}

/// The record after the chosen chunks were sent to `player`.
pub open spec fn marked_sets(
    positions: Seq<IVec3>,
    sets: Seq<Set<PlayerId>>,
    chosen: Seq<IVec3>,
    player: PlayerId,
) -> Seq<Set<PlayerId>> {
    Seq::new(
        sets.len(),
        |j: int|
            if chosen.contains(positions[j]) {
                sets[j].insert(player)
            } else {
                sets[j]
            },
    )
}

/// For each active chunk, whether the world holds it.
pub open spec fn held_flags(positions: Seq<IVec3>, active: Seq<IVec3>) -> Seq<bool> {
    Seq::new(active.len(), |i: int| positions.contains(active[i]))
}

/// For each active chunk, whether it was sent to `player` by the record `sets`.
pub open spec fn sent_flags(
    positions: Seq<IVec3>,
    sets: Seq<Set<PlayerId>>,
    active: Seq<IVec3>,
    player: PlayerId,
) -> Seq<bool> {
    Seq::new(active.len(), |i: int| sent_to(positions, sets, active[i], player))
}

/// An update never sends a player a chunk it was sent before, unless the
/// chunk changed since the last update.
pub proof fn lemma_no_resend(
    positions: Seq<IVec3>,
    sets: Seq<Set<PlayerId>>,
    active: Seq<IVec3>,
    changed: Seq<IVec3>,
    player: PlayerId,
    limit: usize,
    p: IVec3,
)
    requires
        positions.len() == sets.len(),
        sent_to(positions, sets, p, player),
        !changed.contains(p),
    ensures
        !send_plan(
            active,
            held_flags(positions, active),
            sent_flags(positions, cleared_sets(positions, sets, active, changed), active, player),
            limit,
            active.len(),
        ).contains(p),
{
    let cleared = cleared_sets(positions, sets, active, changed);
    let held = held_flags(positions, active);
    let sent = sent_flags(positions, cleared, active, player);
    let plan = send_plan(active, held, sent, limit, active.len());
    lemma_send_plan_sound(active, held, sent, limit, active.len());
    let j = choose|j: int| 0 <= j < positions.len() && positions[j] == p && sets[j].contains(player);
    assert(cleared[j] == sets[j]);
    if plan.contains(p) {
        let k = choose|k: int| 0 <= k < plan.len() && plan[k] == p;
        let i = choose|i: int| 0 <= i < active.len() && active[i] == #[trigger] plan[k] && held[i] && !sent[i];
        assert(sent[i] == sent_to(positions, cleared, active[i], player));
        assert(sent_to(positions, cleared, p, player));
    }
}

/// After an update, every chunk sent to a player is recorded as sent to it.
pub proof fn lemma_sent_recorded(
    positions: Seq<IVec3>,
    sets: Seq<Set<PlayerId>>,
    active: Seq<IVec3>,
    changed: Seq<IVec3>,
    player: PlayerId,
    limit: usize,
    c: IVec3,
)
    requires
        positions.len() == sets.len(),
        send_plan(
            active,
            held_flags(positions, active),
            sent_flags(positions, cleared_sets(positions, sets, active, changed), active, player),
            limit,
            active.len(),
        ).contains(c),
    ensures
        sent_to(
            positions,
            marked_sets(
                positions,
                cleared_sets(positions, sets, active, changed),
                send_plan(
                    active,
                    held_flags(positions, active),
                    sent_flags(
                        positions,
                        cleared_sets(positions, sets, active, changed),
                        active,
                        player,
                    ),
                    limit,
                    active.len(),
                ),
                player,
            ),
            c,
            player,
        ),
{
    let cleared = cleared_sets(positions, sets, active, changed);
    let held = held_flags(positions, active);
    let sent = sent_flags(positions, cleared, active, player);
    let plan = send_plan(active, held, sent, limit, active.len());
    let marked = marked_sets(positions, cleared, plan, player);
    lemma_send_plan_sound(active, held, sent, limit, active.len());
    let k = choose|k: int| 0 <= k < plan.len() && plan[k] == c;
    let i = choose|i: int| 0 <= i < active.len() && active[i] == #[trigger] plan[k] && held[i] && !sent[i];
    assert(held[i] == positions.contains(active[i]));
    let j = choose|j: int| 0 <= j < positions.len() && positions[j] == c;
    assert(marked[j] == cleared[j].insert(player));
    assert(marked[j].contains(player));
}

/// The chunks the world holds, each with the players it was sent to.
pub struct SentChunks {
    positions: Vec<IVec3>,
    sets: Vec<PlayerSet>,
}

impl SentChunks {
    /// The positions of the held chunks, in the order they were added.
    pub closed spec fn positions(&self) -> Seq<IVec3> {
        self.positions@
    }

    /// For each held chunk, the players it was sent to.
    pub closed spec fn sets(&self) -> Seq<Set<PlayerId>> {
        Seq::new(self.sets@.len(), |j: int| self.sets@[j]@)
    }

    /// Well-formedness: one set per chunk, and no chunk held twice.
    pub closed spec fn wf(&self) -> bool {
        &&& self.positions@.len() == self.sets@.len()
        &&& no_duplicates(self.positions@)
        &&& forall|j: int| 0 <= j < self.sets@.len() ==> (#[trigger] self.sets@[j]).wf()
    }

    /// A world that holds no chunk.
    pub fn new() -> (r: Self)
        ensures
            r.wf(),
            r.positions() == Seq::<IVec3>::empty(),
            r.sets() == Seq::<Set<PlayerId>>::empty(),
    {
        let r = SentChunks { positions: Vec::new(), sets: Vec::new() };
        assert(r.sets() =~= Seq::<Set<PlayerId>>::empty());
        r
    }

    /// Records a chunk that the world now holds, sent to nobody yet; a chunk
    /// already held is left as it is.
    pub fn add_chunk(&mut self, pos: IVec3)
        requires
            old(self).wf(),
        ensures
            final(self).wf(),
            old(self).positions().contains(pos) ==> final(self).positions() == old(
                self,
            ).positions() && final(self).sets() == old(self).sets(),
            !old(self).positions().contains(pos) ==> final(self).positions() == old(
                self,
            ).positions().push(pos) && final(self).sets() == old(self).sets().push(
                Set::<PlayerId>::empty(),
            ),
    {
        if !contains_pos(&self.positions, &pos) {
            self.positions.push(pos);
            self.sets.push(PlayerSet::new());
            proof {
                assert forall|a: int, b: int|
                    0 <= a < self.positions@.len() && 0 <= b < self.positions@.len() && a
                        != b implies self.positions@[a] != self.positions@[b] by {
                    if a < old(self).positions@.len() && b < old(self).positions@.len() {
                    } else if a < old(self).positions@.len() {
                        assert(old(self).positions@.contains(self.positions@[a]));
                    } else {
                        assert(old(self).positions@.contains(self.positions@[b]));
                    }
                }
                assert(self.sets() =~= old(self).sets().push(Set::<PlayerId>::empty()));
            }
        }
    }

    /// The index of the chunk at `pos`, if the world holds it.
    fn index_of(&self, pos: &IVec3) -> (r: Option<usize>)
        requires
            self.wf(),
        ensures
            match r {
                Some(j) => j < self.positions().len() && self.positions()[j as int] == *pos,
                None => !self.positions().contains(*pos),
            },
    {
        let mut j: usize = 0;
        while j < self.positions.len()
            invariant
                j <= self.positions@.len(),
                forall|t: int| 0 <= t < j ==> self.positions@[t] != *pos,
            decreases self.positions.len() - j,
        {
            if self.positions[j] == *pos {
                return Some(j);
            }
            j += 1;
        }
        None
    }

    /// Whether the chunk at `pos` was sent to `player`.
    pub fn was_sent(&self, pos: &IVec3, player: PlayerId) -> (r: bool)
        requires
            self.wf(),
        ensures
            r == sent_to(self.positions(), self.sets(), *pos, player),
    {
        match self.index_of(pos) {
            Some(j) => {
                let r = self.sets[j].contains(player);
                proof {
                    if sent_to(self.positions(), self.sets(), *pos, player) {
                        let t = choose|t: int|
                            0 <= t < self.positions().len() && self.positions()[t] == *pos
                                && self.sets()[t].contains(player);
                        assert(t == j);
                    }
                }
                r
            },
            None => false,
        }
    }

    /// One update's sending of chunks to `player`: the record of each active
    /// chunk that changed since the last update is cleared, then the active
    /// chunks (nearest first) that the world holds and that were not sent to
    /// the player are chosen, at most `chunk_limit` of them, and marked as
    /// sent to the player. Returns the chosen chunks.
    pub fn send_chunks_to_player(
        &mut self,
        active_chunks: &Vec<IVec3>,
        changed: &Vec<IVec3>,
        player: PlayerId,
        chunk_limit: usize,
    ) -> (chosen: Vec<IVec3>)
        requires
            old(self).wf(),
        ensures
            final(self).wf(),
            final(self).positions() == old(self).positions(),
            chosen@ == send_plan(
                active_chunks@,
                held_flags(old(self).positions(), active_chunks@),
                sent_flags(
                    old(self).positions(),
                    cleared_sets(old(self).positions(), old(self).sets(), active_chunks@, changed@),
                    active_chunks@,
                    player,
                ),
                chunk_limit,
                active_chunks@.len(),
            ),
            final(self).sets() == marked_sets(
                old(self).positions(),
                cleared_sets(old(self).positions(), old(self).sets(), active_chunks@, changed@),
                chosen@,
                player,
            ),
    {
        let ghost pos0 = self.positions@;
        let ghost cleared = cleared_sets(pos0, old(self).sets(), active_chunks@, changed@);
        let mut j: usize = 0;
        while j < self.sets.len()
            invariant
                j <= self.sets@.len(),
                self.wf(),
                self.positions@ == pos0,
                cleared == cleared_sets(pos0, old(self).sets(), active_chunks@, changed@),
                cleared.len() == self.sets@.len(),
                forall|t: int| 0 <= t < j ==> #[trigger] self.sets()[t] == cleared[t],
                forall|t: int| j <= t < self.sets@.len() ==> #[trigger] self.sets()[t] == old(self).sets()[t],
            decreases self.sets.len() - j,
        {
            let ghost prev = self.sets@;
            let ghost prev_view = self.sets();
            if contains_pos(active_chunks, &self.positions[j]) && contains_pos(
                changed,
                &self.positions[j],
            ) {
                self.sets.set(j, PlayerSet::new());
            }
            proof {
                assert forall|t: int| 0 <= t < self.sets@.len() && t != j implies self.sets()[t]
                    == prev_view[t] by {
                    assert(self.sets@[t] == prev[t]);
                }
                assert(self.sets()[j as int] == cleared[j as int]);
                assert forall|t: int| 0 <= t < j + 1 implies #[trigger] self.sets()[t] == cleared[t] by {
                    if t < j {
                        assert(prev_view[t] == cleared[t]);
                    }
                }
                assert forall|t: int| j + 1 <= t < self.sets@.len() implies #[trigger] self.sets()[t]
                    == old(self).sets()[t] by {
                    assert(prev_view[t] == old(self).sets()[t]);
                }
            }
            j += 1;
        }
        assert(self.sets() =~= cleared);
        let mut held: Vec<bool> = Vec::new();
        let mut sent: Vec<bool> = Vec::new();
        let mut i: usize = 0;
        while i < active_chunks.len()
            invariant
                i <= active_chunks@.len(),
                self.wf(),
                self.positions() == pos0,
                self.sets() == cleared,
                held@.len() == i,
                sent@.len() == i,
                forall|t: int| 0 <= t < i ==> #[trigger] held@[t] == pos0.contains(active_chunks@[t]),
                forall|t: int|
                    0 <= t < i ==> #[trigger] sent@[t] == sent_to(pos0, cleared, active_chunks@[t], player),
            decreases active_chunks.len() - i,
        {
            let h = self.index_of(&active_chunks[i]).is_some();
            held.push(h);
            sent.push(self.was_sent(&active_chunks[i], player));
            i += 1;
        }
        assert(held@ =~= held_flags(pos0, active_chunks@));
        assert(sent@ =~= sent_flags(pos0, cleared, active_chunks@, player));
        let chosen = select_chunks_to_send(active_chunks, &held, &sent, chunk_limit);
        let mut j: usize = 0;
        let ghost marked = marked_sets(pos0, cleared, chosen@, player);
        while j < self.sets.len()
            invariant
                j <= self.sets@.len(),
                self.wf(),
                self.positions@ == pos0,
                marked.len() == self.sets@.len(),
                cleared.len() == self.sets@.len(),
                marked == marked_sets(pos0, cleared, chosen@, player),
                forall|t: int| 0 <= t < j ==> #[trigger] self.sets()[t] == marked[t],
                forall|t: int| j <= t < self.sets@.len() ==> #[trigger] self.sets()[t] == cleared[t],
            decreases self.sets.len() - j,
        {
            let ghost prev = self.sets@;
            let ghost prev_view = self.sets();
            if contains_pos(&chosen, &self.positions[j]) {
                self.sets[j].insert(player);
            }
            proof {
                assert forall|t: int| 0 <= t < self.sets@.len() && t != j implies self.sets()[t]
                    == prev_view[t] by {
                    assert(self.sets@[t] == prev[t]);
                }
                assert(prev_view[j as int] == cleared[j as int]);
                if chosen@.contains(pos0[j as int]) {
                    assert(self.sets@[j as int]@ == prev[j as int]@.insert(player));
                } else {
                    assert(self.sets@[j as int] == prev[j as int]);
                }
                assert(self.sets()[j as int] == marked[j as int]);
                assert forall|t: int| 0 <= t < j + 1 implies #[trigger] self.sets()[t] == marked[t] by {
                    if t < j {
                        assert(prev_view[t] == marked[t]);
                    }
                }
                assert forall|t: int| j + 1 <= t < self.sets@.len() implies #[trigger] self.sets()[t]
                    == cleared[t] by {
                    assert(prev_view[t] == cleared[t]);
                }
            }
            j += 1;
        }
        assert(self.sets() =~= marked);
        chosen
    }
}

} // verus!
