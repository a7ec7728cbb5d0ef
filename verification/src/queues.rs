//! Work queues of the water simulation: positions and chunks waiting to be
//! processed.
use vstd::prelude::*;

use std::collections::VecDeque;

use crate::geometry::IVec3;
use crate::pos_set::{contains_pos, insert_pos, no_duplicates, remove_pos};

verus! {

/// First-in first-out queue of global positions waiting for water
/// simulation; a position is never queued twice.
pub struct WaterSimulationQueue {
    /// Positions in the order they were queued, each at most once.
    pub pending: VecDeque<IVec3>,
}

/// The queue after `pos` is queued: unchanged if already pending, else `pos` is appended.
pub open spec fn queue_spec(q: Seq<IVec3>, pos: IVec3) -> Seq<IVec3> {
    if q.contains(pos) {
        q
    } else {
        q.push(pos)
    }
}

/// The queue after each position of `ps` is queued in turn.
pub open spec fn queue_all_spec(q: Seq<IVec3>, ps: Seq<IVec3>) -> Seq<IVec3>
    decreases ps.len(),
{
    if ps.len() == 0 {
        q
    } else {
        queue_all_spec(queue_spec(q, ps[0]), ps.drop_first())
    }
}

proof fn lemma_queue_keeps_unique(q: Seq<IVec3>, pos: IVec3)
    requires
        no_duplicates(q),
    ensures
        no_duplicates(queue_spec(q, pos)),
{
}

impl WaterSimulationQueue {
    /// The pending positions, oldest first.
    pub open spec fn view(&self) -> Seq<IVec3> {
        self.pending@
    }

    /// No position is pending twice.
    pub open spec fn wf(&self) -> bool {
        no_duplicates(self.pending@)
    }

    /// An empty queue.
    pub fn new() -> (r: Self)
        ensures
            r.wf(),
            r@ == Seq::<IVec3>::empty(),
    {
        WaterSimulationQueue { pending: VecDeque::new() }
    }

    fn contains(&self, pos: &IVec3) -> (r: bool)
        ensures
            r == self@.contains(*pos),
    {
        let mut i: usize = 0;
        while i < self.pending.len()
            invariant
                i <= self@.len(),
                forall|t: int| 0 <= t < i ==> self@[t] != *pos,
            decreases self@.len() - i,
        {
            if self.pending[i] == *pos {
                return true;
            }
            i += 1;
        }
        false
    }

    /// Queues a position for water simulation unless it is already pending.
    pub fn queue(&mut self, pos: IVec3)
        requires
            old(self).wf(),
        ensures
            final(self).wf(),
            final(self)@ == queue_spec(old(self)@, pos),
    {
        if !self.contains(&pos) {
            self.pending.push_back(pos);
        }
    }

    /// Queues several positions, in order.
    pub fn queue_many(&mut self, positions: Vec<IVec3>)
        requires
            old(self).wf(),
        ensures
            final(self).wf(),
            final(self)@ == queue_all_spec(old(self)@, positions@),
    {
        let mut i: usize = 0;
        proof {
            assert(positions@.skip(0) =~= positions@);
        }
        while i < positions.len()
            invariant
                self.wf(),
                i <= positions@.len(),
                queue_all_spec(self@, positions@.skip(i as int)) == queue_all_spec(
                    old(self)@,
                    positions@,
                ),
            decreases positions@.len() - i,
        {
            proof {
                assert(positions@.skip(i as int).drop_first() =~= positions@.skip(i + 1));
            }
            self.queue(positions[i]);
            i += 1;
        }
        proof {
            assert(positions@.skip(i as int) =~= Seq::<IVec3>::empty());
        }
    }

    /// Removes and returns the oldest pending position, if any.
    pub fn pop(&mut self) -> (r: Option<IVec3>)
        requires
            old(self).wf(),
        ensures
            final(self).wf(),
            old(self)@.len() == 0 ==> r is None && final(self)@ == old(self)@,
            old(self)@.len() > 0 ==> r == Some(old(self)@[0]) && final(self)@ == old(
                self,
            )@.drop_first(),
    {
        let r = self.pending.pop_front();
        proof {
            if old(self)@.len() > 0 {
                assert(self@ =~= old(self)@.drop_first());
            }
        }
        r
    }

    /// Whether no position is pending.
    pub fn is_empty(&self) -> (r: bool)
        ensures
            r == (self@.len() == 0),
    {
        self.pending.len() == 0
    }

    /// Number of pending positions.
    pub fn len(&self) -> (r: usize)
        ensures
            r == self@.len(),
    {
        self.pending.len()
    }
}

/// Chunks waiting for their water surfaces to be detected again.
pub struct WaterSurfaceUpdateQueue {
    /// Pending chunks, each at most once.
    pub pending_chunks: Vec<IVec3>,
}

impl WaterSurfaceUpdateQueue {
    /// No chunk is pending twice.
    pub open spec fn wf(&self) -> bool {
        no_duplicates(self.pending_chunks@)
    }

    /// An empty queue.
    pub fn new() -> (r: Self)
        ensures
            r.wf(),
            r.pending_chunks@ == Seq::<IVec3>::empty(),
    {
        WaterSurfaceUpdateQueue { pending_chunks: Vec::new() }
    }

    /// Queues a chunk for surface detection.
    pub fn queue(&mut self, chunk_pos: IVec3)
        requires
            old(self).wf(),
        ensures
            final(self).wf(),
            forall|x: IVec3|
                final(self).pending_chunks@.contains(x) <==> (old(self).pending_chunks@.contains(x)
                    || x == chunk_pos),
    {
        insert_pos(&mut self.pending_chunks, chunk_pos);
    }

    /// Forgets all pending chunks.
    pub fn clear(&mut self)
        ensures
            final(self).wf(),
            final(self).pending_chunks@ == Seq::<IVec3>::empty(),
    {
        self.pending_chunks = Vec::new();
    }
}

/// Chunks waiting for lateral water flow simulation.
pub struct LateralFlowQueue {
    /// Pending chunks, each at most once.
    pub pending_chunks: Vec<IVec3>,
}

impl LateralFlowQueue {
    /// No chunk is pending twice.
    pub open spec fn wf(&self) -> bool {
        no_duplicates(self.pending_chunks@)
    }

    /// An empty queue.
    pub fn new() -> (r: Self)
        ensures
            r.wf(),
            r.pending_chunks@ == Seq::<IVec3>::empty(),
    {
        LateralFlowQueue { pending_chunks: Vec::new() }
    }

    /// Queues a chunk for lateral flow simulation.
    pub fn queue(&mut self, chunk_pos: IVec3)
        requires
            old(self).wf(),
        ensures
            final(self).wf(),
            forall|x: IVec3|
                final(self).pending_chunks@.contains(x) <==> (old(self).pending_chunks@.contains(x)
                    || x == chunk_pos),
    {
        insert_pos(&mut self.pending_chunks, chunk_pos);
    }

    /// Removes a chunk from the queue.
    pub fn remove(&mut self, chunk_pos: &IVec3)
        requires
            old(self).wf(),
        ensures
            final(self).wf(),
            forall|x: IVec3|
                final(self).pending_chunks@.contains(x) <==> (old(self).pending_chunks@.contains(x)
                    && x != *chunk_pos),
    {
        remove_pos(&mut self.pending_chunks, chunk_pos);
    }

    /// Whether a chunk is pending.
    pub fn contains(&self, chunk_pos: &IVec3) -> (r: bool)
        ensures
            r == self.pending_chunks@.contains(*chunk_pos),
    {
        contains_pos(&self.pending_chunks, chunk_pos)
    }
}

/// Positions leave the simulation queue in the order they were first
/// queued: queueing a new position and then popping everything returns the
/// old pending positions first and the new one last.
pub proof fn lemma_queue_is_fifo(q: Seq<IVec3>, pos: IVec3)
    requires
        no_duplicates(q),
        !q.contains(pos),
    ensures
        queue_spec(q, pos) == q.push(pos),
        queue_spec(q, pos).last() == pos,
        queue_spec(q, pos).len() > 0 && (q.len() > 0 ==> queue_spec(q, pos)[0] == q[0]),
{
}

/// Queueing a position that is already pending changes nothing, and
/// queueing any position twice has the same effect as queueing it once.
pub proof fn lemma_queue_idempotent(q: Seq<IVec3>, pos: IVec3)
    ensures
        q.contains(pos) ==> queue_spec(q, pos) == q,
        queue_spec(queue_spec(q, pos), pos) == queue_spec(q, pos),
        queue_spec(q, pos).contains(pos),
{
    if !q.contains(pos) {
        assert(q.push(pos)[q.len() as int] == pos);
    }
}

} // verus!
