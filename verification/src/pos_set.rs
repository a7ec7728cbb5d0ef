//! Small sets of positions kept in vectors without duplicates.
use vstd::prelude::*;

use crate::geometry::IVec3;

verus! {

/// Whether every element of the sequence is distinct.
pub open spec fn no_duplicates(s: Seq<IVec3>) -> bool {
    forall|i: int, j: int| 0 <= i < s.len() && 0 <= j < s.len() && i != j ==> s[i] != s[j]
}

/// Whether `pos` occurs in the vector.
pub fn contains_pos(v: &Vec<IVec3>, pos: &IVec3) -> (r: bool)
    ensures
        r == v@.contains(*pos),
{
    let mut i: usize = 0;
    while i < v.len()
        invariant
            i <= v@.len(),
            forall|t: int| 0 <= t < i ==> v@[t] != *pos,
        decreases v.len() - i,
    {
        if v[i] == *pos {
            return true;
        }
        i += 1;
    }
    false
}

/// Adds `pos` to a vector used as a set.
pub fn insert_pos(v: &mut Vec<IVec3>, pos: IVec3)
    requires
        no_duplicates(old(v)@),
    ensures
        no_duplicates(final(v)@),
        forall|x: IVec3| final(v)@.contains(x) <==> (old(v)@.contains(x) || x == pos),
{
    if !contains_pos(v, &pos) {
        v.push(pos);
        proof {
            assert forall|x: IVec3| v@.contains(x) <==> (old(v)@.contains(x) || x == pos) by {
                if old(v)@.contains(x) {
                    let j = choose|j: int| 0 <= j < old(v)@.len() && old(v)@[j] == x;
                    assert(v@[j] == x);
                }
                if v@.contains(x) {
                    let j = choose|j: int| 0 <= j < v@.len() && v@[j] == x;
                    if j < old(v)@.len() {
                        assert(old(v)@[j] == x);
                    }
                }
                if x == pos {
                    assert(v@[old(v)@.len() as int] == x);
                }
            }
        }
    }
}

/// Whether `x` occurs among the first `n` elements of `s`.
pub open spec fn in_prefix(s: Seq<IVec3>, n: int, x: IVec3) -> bool {
    exists|j: int| 0 <= j < n && s[j] == x
}

/// Removes `pos` from a vector used as a set.
pub fn remove_pos(v: &mut Vec<IVec3>, pos: &IVec3)
    requires
        no_duplicates(old(v)@),
    ensures
        no_duplicates(final(v)@),
        forall|x: IVec3| final(v)@.contains(x) <==> (old(v)@.contains(x) && x != *pos),
{
    let ghost v0 = v@;
    let mut kept: Vec<IVec3> = Vec::new();
    let mut i: usize = 0;
    while i < v.len()
        invariant
            v@ == v0,
            no_duplicates(v0),
            i <= v0.len(),
            no_duplicates(kept@),
            forall|x: IVec3| kept@.contains(x) <==> (in_prefix(v0, i as int, x) && x != *pos),
        decreases v0.len() - i,
    {
        let x = v[i];
        let ghost kept0 = kept@;
        if x != *pos {
            proof {
                if kept@.contains(x) {
                    let j = choose|j: int| 0 <= j < i && v0[j] == x;
                    assert(v0[j] == v0[i as int]);
                }
            }
            kept.push(x);
        }
        proof {
            assert forall|y: IVec3| kept@.contains(y) <==> (kept0.contains(y) || (y == x && x != *pos)) by {
                if kept0.contains(y) {
                    let j = choose|j: int| 0 <= j < kept0.len() && kept0[j] == y;
                    assert(kept@[j] == y);
                }
                if kept@.contains(y) {
                    let j = choose|j: int| 0 <= j < kept@.len() && kept@[j] == y;
                    if j < kept0.len() {
                        assert(kept0[j] == y);
                    }
                }
                if y == x && x != *pos {
                    assert(kept@[kept@.len() - 1] == y);
                }
            }
            assert forall|y: IVec3| kept@.contains(y) <==> (in_prefix(v0, i + 1, y) && y != *pos) by {
                if in_prefix(v0, i + 1, y) {
                    let j = choose|j: int| 0 <= j < i + 1 && v0[j] == y;
                    if j < i {
                        assert(in_prefix(v0, i as int, y));
                    }
                }
                if in_prefix(v0, i as int, y) {
                    let j = choose|j: int| 0 <= j < i && v0[j] == y;
                    assert(in_prefix(v0, i + 1, y));
                }
                if kept@.contains(y) && y == x {
                    assert(in_prefix(v0, i + 1, y));
                }
            }
        }
        i += 1;
    }
    proof {
        assert forall|y: IVec3| in_prefix(v0, v0.len() as int, y) <==> v0.contains(y) by {
            if v0.contains(y) {
                let j = choose|j: int| 0 <= j < v0.len() && v0[j] == y;
                assert(in_prefix(v0, v0.len() as int, y));
            }
        }
    }
    *v = kept;
}

} // verus!
