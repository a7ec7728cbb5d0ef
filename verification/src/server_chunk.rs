//! A chunk as the server keeps it: its blocks, when it last changed, and
//! the players it was sent to.
use vstd::prelude::*;

use crate::block_map::BlockMap;
use crate::geometry::IVec3;
use crate::blocks::BlockData;

verus! {

/// Identifier of a connected player.
pub type PlayerId = u64;

/// A set of players, each held once.
pub struct PlayerSet {
    ids: Vec<PlayerId>,
}

impl View for PlayerSet {
    type V = Set<PlayerId>;

    closed spec fn view(&self) -> Set<PlayerId> {
        self.ids@.to_set()
    }
}

impl PlayerSet {
    /// Well-formedness: no player is held twice.
    pub closed spec fn wf(&self) -> bool {
        self.ids@.no_duplicates()
    }

    /// The empty set.
    pub fn new() -> (r: Self)
        ensures
            r.wf(),
            r@ == Set::<PlayerId>::empty(),
    {
        let r = PlayerSet { ids: Vec::new() };
        assert(r@ =~= Set::<PlayerId>::empty());
        r
    }

    /// Whether the player is in the set.
    pub fn contains(&self, id: PlayerId) -> (r: bool)
        ensures
            r == self@.contains(id),
    {
        let mut i: usize = 0;
        while i < self.ids.len()
            invariant
                i <= self.ids@.len(),
                forall|j: int| 0 <= j < i ==> self.ids@[j] != id,
            decreases self.ids.len() - i,
        {
            if self.ids[i] == id {
                assert(self.ids@.to_set().contains(self.ids@[i as int]));
                return true;
            }
            i += 1;
        }
        false
    }

    /// Adds a player; one already in the set is not added again.
    pub fn insert(&mut self, id: PlayerId)
        requires
            old(self).wf(),
        ensures
            final(self).wf(),
            final(self)@ == old(self)@.insert(id),
    {
        if !self.contains(id) {
            let ghost s = self.ids@;
            self.ids.push(id);
            proof {
                assert forall|x: PlayerId| self.ids@.to_set().contains(x) <==> s.to_set().insert(
                    id,
                ).contains(x) by {
                    if self.ids@.contains(x) && x != id {
                        let j = choose|j: int| 0 <= j < self.ids@.len() && self.ids@[j] == x;
                        assert(s[j] == x);
                    }
                    if s.contains(x) {
                        let j = choose|j: int| 0 <= j < s.len() && s[j] == x;
                        assert(self.ids@[j] == x);
                    }
                    if x == id {
                        assert(self.ids@[s.len() as int] == x);
                    }
                }
                assert(self@ =~= old(self)@.insert(id));
            }
        } else {
            assert(self@ =~= old(self)@.insert(id));
        }
    }

    /// Number of players in the set.
    pub fn len(&self) -> (r: usize)
        requires
            self.wf(),
        ensures
            r == self@.len(),
    {
        proof {
            self.ids@.unique_seq_to_set();
        }
        self.ids.len()
    }

    /// Whether the set is empty.
    pub fn is_empty(&self) -> (r: bool)
        requires
            self.wf(),
        ensures
            r == (self@.len() == 0),
    {
        self.len() == 0
    }

    /// Removes every player.
    pub fn clear(&mut self)
        ensures
            final(self).wf(),
            final(self)@ == Set::<PlayerId>::empty(),
    {
        self.ids = Vec::new();
        assert(self@ =~= Set::<PlayerId>::empty());
    }
}

/// A chunk of the server: its blocks by local position, the time of its
/// last change, and the players it was sent to.
pub struct ServerChunk {
    pub map: BlockMap,
    /// Timestamp of the last update of the chunk.
    pub ts: u64,
    pub sent_to_clients: PlayerSet,
}

impl Default for ServerChunk {
    /// An empty chunk, never updated, sent to nobody.
    fn default() -> (r: Self)
        ensures
            r.map.wf(),
            r.map@ == Map::<IVec3, BlockData>::empty(),
            r.ts == 0,
            r.sent_to_clients.wf(),
            r.sent_to_clients@ == Set::<PlayerId>::empty(),
    {
        ServerChunk { map: BlockMap::new(), ts: 0, sent_to_clients: PlayerSet::new() }
    }
}

} // verus!
