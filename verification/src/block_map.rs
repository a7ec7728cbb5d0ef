//! The blocks of one chunk, keyed by their position inside the chunk.
use vstd::prelude::*;

use crate::blocks::BlockData;
use crate::geometry::IVec3;

verus! {

/// The map that a list of entries stands for: each entry sets its key,
/// later entries overriding earlier ones.
pub open spec fn entries_map(s: Seq<(IVec3, BlockData)>) -> Map<IVec3, BlockData>
    decreases s.len(),
{
    if s.len() == 0 {
        Map::empty()
    } else {
        entries_map(s.drop_last()).insert(s.last().0, s.last().1)
    }
}

/// No two entries share a key.
pub open spec fn keys_distinct(s: Seq<(IVec3, BlockData)>) -> bool {
    forall|i: int, j: int| 0 <= i < s.len() && 0 <= j < s.len() && i != j ==> s[i].0 != s[j].0
}

/// Blocks placed in a chunk, by local position.
pub struct BlockMap {
    entries: Vec<(IVec3, BlockData)>,
}

impl View for BlockMap {
    type V = Map<IVec3, BlockData>;

    closed spec fn view(&self) -> Map<IVec3, BlockData> {
        entries_map(self.entries@)
    }
}

proof fn lemma_entries_map_dom(s: Seq<(IVec3, BlockData)>)
    ensures
        entries_map(s).dom().finite(),
        forall|p: IVec3| #[trigger]
            entries_map(s).dom().contains(p) <==> exists|i: int| 0 <= i < s.len() && s[i].0 == p,
    decreases s.len(),
{
    if s.len() > 0 {
        let t = s.drop_last();
        lemma_entries_map_dom(t);
        assert forall|p: IVec3| #[trigger]
            entries_map(s).dom().contains(p) <==> exists|i: int| 0 <= i < s.len() && s[i].0 == p by {
            if entries_map(s).dom().contains(p) && p != s.last().0 {
                let i = choose|i: int| 0 <= i < t.len() && t[i].0 == p;
                assert(s[i].0 == p);
            }
            if exists|i: int| 0 <= i < s.len() && s[i].0 == p {
                let i = choose|i: int| 0 <= i < s.len() && s[i].0 == p;
                if i < t.len() {
                    assert(t[i].0 == p);
                }
            }
        }
    }
}

proof fn lemma_entries_map_value(s: Seq<(IVec3, BlockData)>, i: int)
    requires
        keys_distinct(s),
        0 <= i < s.len(),
    ensures
        entries_map(s).dom().contains(s[i].0),
        entries_map(s)[s[i].0] == s[i].1,
    decreases s.len(),
{
    let t = s.drop_last();
    if i < s.len() - 1 {
        assert(t[i] == s[i]);
        lemma_entries_map_value(t, i);
    }
}

proof fn lemma_entries_map_len(s: Seq<(IVec3, BlockData)>)
    requires
        keys_distinct(s),
    ensures
        entries_map(s).dom().len() == s.len(),
    decreases s.len(),
{
    if s.len() > 0 {
        let t = s.drop_last();
        lemma_entries_map_len(t);
        lemma_entries_map_dom(t);
        if entries_map(t).dom().contains(s.last().0) {
            let i = choose|i: int| 0 <= i < t.len() && t[i].0 == s.last().0;
            assert(s[i].0 == s[s.len() - 1].0);
        }
    }
}

proof fn lemma_entries_map_update(s: Seq<(IVec3, BlockData)>, i: int, b: BlockData)
    requires
        keys_distinct(s),
        0 <= i < s.len(),
    ensures
        entries_map(s.update(i, (s[i].0, b))) == entries_map(s).insert(s[i].0, b),
    decreases s.len(),
{
    let p = s[i].0;
    let u = s.update(i, (p, b));
    let t = s.drop_last();
    if i == s.len() - 1 {
        assert(u.drop_last() =~= t);
        assert(entries_map(u) =~= entries_map(s).insert(p, b));
    } else {
        assert(u.drop_last() =~= t.update(i, (p, b)));
        assert(t[i] == s[i]);
        lemma_entries_map_update(t, i, b);
        assert(s.last().0 != p);
        assert(entries_map(u) =~= entries_map(s).insert(p, b));
    }
}

proof fn lemma_entries_map_remove(s: Seq<(IVec3, BlockData)>, i: int)
    requires
        keys_distinct(s),
        0 <= i < s.len(),
    ensures
        entries_map(s.remove(i)) == entries_map(s).remove(s[i].0),
    decreases s.len(),
{
    let p = s[i].0;
    let t = s.drop_last();
    let u = s.remove(i);
    lemma_entries_map_dom(t);
    if i == s.len() - 1 {
        assert(u =~= t);
        assert(!entries_map(t).dom().contains(p)) by {
            if entries_map(t).dom().contains(p) {
                let j = choose|j: int| 0 <= j < t.len() && t[j].0 == p;
                assert(s[j].0 == s[i].0);
            }
        }
        assert(entries_map(u) =~= entries_map(s).remove(p));
    } else {
        assert(u.drop_last() =~= t.remove(i));
        assert(u.last() == s.last());
        assert(t[i] == s[i]);
        lemma_entries_map_remove(t, i);
        assert(s.last().0 != p);
        assert(entries_map(u) =~= entries_map(s).remove(p));
    }
}

impl BlockMap {
    /// Well-formedness: each position occurs in at most one entry.
    pub closed spec fn wf(&self) -> bool {
        keys_distinct(self.entries@)
    }

    /// An empty chunk.
    pub fn new() -> (r: Self)
        ensures
            r.wf(),
            r@ == Map::<IVec3, BlockData>::empty(),
    {
        BlockMap { entries: Vec::new() }
    }

    fn find(&self, pos: &IVec3) -> (r: Option<usize>)
        ensures
            match r {
                Some(i) => i < self.entries@.len() && self.entries@[i as int].0 == *pos,
                None => forall|i: int| 0 <= i < self.entries@.len() ==> self.entries@[i].0 != *pos,
            },
    {
        let mut i: usize = 0;
        while i < self.entries.len()
            invariant
                i <= self.entries@.len(),
                forall|j: int| 0 <= j < i ==> self.entries@[j].0 != *pos,
            decreases self.entries.len() - i,
        {
            if self.entries[i].0 == *pos {
                return Some(i);
            }
            i += 1;
        }
        None
    }

    /// Number of positions holding a block.
    pub fn len(&self) -> (r: usize)
        requires
            self.wf(),
        ensures
            r == self@.dom().len(),
    {
        proof {
            lemma_entries_map_len(self.entries@);
        }
        self.entries.len()
    }

    /// The block at `pos`, if any.
    pub fn get(&self, pos: &IVec3) -> (r: Option<BlockData>)
        requires
            self.wf(),
        ensures
            r == (if self@.dom().contains(*pos) {
                Some(self@[*pos])
            } else {
                None
            }),
    {
        proof {
            lemma_entries_map_dom(self.entries@);
        }
        match self.find(pos) {
            Some(i) => {
                proof {
                    lemma_entries_map_value(self.entries@, i as int);
                }
                Some(self.entries[i].1)
            },
            None => None,
        }
    }

    /// Removes the block at `pos`, if any.
    pub fn remove(&mut self, pos: &IVec3)
        requires
            old(self).wf(),
        ensures
            final(self).wf(),
            final(self)@ == old(self)@.remove(*pos),
    {
        proof {
            lemma_entries_map_dom(self.entries@);
        }
        match self.find(pos) {
            Some(i) => {
                proof {
                    lemma_entries_map_remove(self.entries@, i as int);
                }
                let ghost s = self.entries@;
                self.entries.remove(i);
                proof {
                    assert forall|a: int, b: int|
                        0 <= a < self.entries@.len() && 0 <= b < self.entries@.len() && a != b implies self.entries@[a].0
                            != self.entries@[b].0 by {
                        let a0 = if a < i { a } else { a + 1 };
                        let b0 = if b < i { b } else { b + 1 };
                        assert(self.entries@[a] == s[a0]);
                        assert(self.entries@[b] == s[b0]);
                    }
                }
            },
            None => {
                proof {
                    assert(self@ =~= old(self)@.remove(*pos));
                }
            },
        }
    }

    /// Sets the block at `pos`, replacing any block already there.
    pub fn insert(&mut self, pos: IVec3, block: BlockData)
        requires
            old(self).wf(),
        ensures
            final(self).wf(),
            final(self)@ == old(self)@.insert(pos, block),
    {
        match self.find(&pos) {
            Some(i) => {
                proof {
                    lemma_entries_map_update(self.entries@, i as int, block);
                }
                self.entries.set(i, (pos, block));
            },
            None => {
                let ghost s = self.entries@;
                self.entries.push((pos, block));
                proof {
                    assert(self.entries@.drop_last() =~= s);
                }
            },
        }
    }
}

} // verus!
