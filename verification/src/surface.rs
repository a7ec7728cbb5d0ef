//! Water surface detection: a water cell is a surface cell when the cell
//! above it holds neither a solid block nor water. Surface cells that touch
//! horizontally are grouped into patches.
use vstd::prelude::*;

use std::collections::VecDeque;

use crate::geometry::IVec3;
use crate::pos_set::{contains_pos, no_duplicates};

verus! {

/// Axis-aligned box of positions (both corners included).
#[derive(Debug, Clone, Copy, PartialEq, Eq, Structural)]
pub struct BoundingBox {
    /// Minimum corner.
    pub min: IVec3,
    /// Maximum corner.
    pub max: IVec3,
}

/// The smaller of two integers.
pub open spec fn min_spec(a: i32, b: i32) -> i32 {
    if a <= b { a } else { b }
}

/// The larger of two integers.
pub open spec fn max_spec(a: i32, b: i32) -> i32 {
    if a >= b { a } else { b }
}

fn min_i32(a: i32, b: i32) -> (r: i32)
    ensures
        r == min_spec(a, b),
{
    if a <= b { a } else { b }
}

fn max_i32(a: i32, b: i32) -> (r: i32)
    ensures
        r == max_spec(a, b),
{
    if a >= b { a } else { b }
}

/// Whether `p` lies inside the box on every axis.
pub open spec fn box_contains(b: BoundingBox, p: IVec3) -> bool {
    &&& b.min.x <= p.x <= b.max.x
    &&& b.min.y <= p.y <= b.max.y
    &&& b.min.z <= p.z <= b.max.z
}

impl BoundingBox {
    /// The box holding exactly one point.
    pub fn from_point(pos: IVec3) -> (r: Self)
        ensures
            r.min == pos,
            r.max == pos,
    {
        BoundingBox { min: pos, max: pos }
    }

    /// Grows the box just enough to include `pos`.
    pub fn expand(&mut self, pos: IVec3)
        ensures
            final(self).min == (IVec3 {
                x: min_spec(old(self).min.x, pos.x),
                y: min_spec(old(self).min.y, pos.y),
                z: min_spec(old(self).min.z, pos.z),
            }),
            final(self).max == (IVec3 {
                x: max_spec(old(self).max.x, pos.x),
                y: max_spec(old(self).max.y, pos.y),
                z: max_spec(old(self).max.z, pos.z),
            }),
    {
        self.min = IVec3::new(
            min_i32(self.min.x, pos.x),
            min_i32(self.min.y, pos.y),
            min_i32(self.min.z, pos.z),
        );
        self.max = IVec3::new(
            max_i32(self.max.x, pos.x),
            max_i32(self.max.y, pos.y),
            max_i32(self.max.z, pos.z),
        );
    }

    /// Width and depth of the box, in cells: `(max.x - min.x + 1, max.z - min.z + 1)`.
    pub fn xz_extent(&self) -> (r: (i32, i32))
        requires
            i32::MIN <= self.max.x - self.min.x < i32::MAX,
            i32::MIN <= self.max.z - self.min.z < i32::MAX,
        ensures
            r.0 == self.max.x - self.min.x + 1,
            r.1 == self.max.z - self.min.z + 1,
    {
        (self.max.x - self.min.x + 1, self.max.z - self.min.z + 1)
    }
}

/// Expanding a box keeps every point it held and adds the new point.
pub proof fn lemma_expand_covers(b: BoundingBox, pos: IVec3, q: IVec3)
    ensures
        ({
            let e = BoundingBox {
                min: IVec3 {
                    x: min_spec(b.min.x, pos.x),
                    y: min_spec(b.min.y, pos.y),
                    z: min_spec(b.min.z, pos.z),
                },
                max: IVec3 {
                    x: max_spec(b.max.x, pos.x),
                    y: max_spec(b.max.y, pos.y),
                    z: max_spec(b.max.z, pos.z),
                },
            };
            &&& box_contains(e, pos)
            &&& box_contains(b, q) ==> box_contains(e, q)
        }),
{
}

/// The position directly above `p`.
pub open spec fn above(p: IVec3) -> IVec3 {
    IVec3 { x: p.x, y: (p.y + 1) as i32, z: p.z }
}

/// Whether the water cell at index `i` is a surface cell: neither a solid
/// block nor water lies directly above it.
pub open spec fn is_surface_spec(water: Seq<IVec3>, solid_above: Seq<bool>, i: int) -> bool {
    !solid_above[i] && !water.contains(above(water[i]))
}

/// The surface cells among the first `n` water cells, in order.
pub open spec fn surfaces_upto(water: Seq<IVec3>, solid_above: Seq<bool>, n: nat) -> Seq<IVec3>
    decreases n,
{
    if n == 0 {
        seq![]
    } else {
        let p = surfaces_upto(water, solid_above, (n - 1) as nat);
        if is_surface_spec(water, solid_above, n - 1) {
            p.push(water[n - 1])
        } else {
            p
        }
    }
}

/// Selects the surface cells among the water cells of a chunk, keeping their
/// order; `solid_above[i]` tells whether the block above `water[i]` is solid.
pub fn select_surface_cells(water: &Vec<IVec3>, solid_above: &Vec<bool>) -> (r: Vec<IVec3>)
    requires
        solid_above@.len() == water@.len(),
        forall|i: int| 0 <= i < water@.len() ==> water@[i].y < i32::MAX,
    ensures
        r@ == surfaces_upto(water@, solid_above@, water@.len()),
{
    let mut res: Vec<IVec3> = Vec::new();
    let mut i: usize = 0;
    while i < water.len()
        invariant
            i <= water@.len(),
            solid_above@.len() == water@.len(),
            forall|t: int| 0 <= t < water@.len() ==> water@[t].y < i32::MAX,
            res@ == surfaces_upto(water@, solid_above@, i as nat),
        decreases water@.len() - i,
    {
        let pos = water[i];
        let above_pos = IVec3::new(pos.x, pos.y + 1, pos.z);
        let above_is_solid = solid_above[i];
        let above_has_water = contains_pos(water, &above_pos);
        if !above_is_solid && !above_has_water {
            res.push(pos);
        }
        i += 1;
    }
    res
}


/// Whether two cells touch horizontally: same height, one step apart along X or Z.
pub open spec fn laterally_adjacent(a: IVec3, b: IVec3) -> bool {
    a.y == b.y && ((a.z == b.z && (a.x - b.x == 1 || b.x - a.x == 1)) || (a.x == b.x && (a.z
        - b.z == 1 || b.z - a.z == 1)))
}

/// The patches as sequences of positions.
pub open spec fn deep(ps: Seq<Vec<IVec3>>) -> Seq<Seq<IVec3>> {
    ps.map_values(|v: Vec<IVec3>| v@)
}

/// Whether `x` belongs to one of the first `n` patches.
pub open spec fn in_patches(ps: Seq<Seq<IVec3>>, n: int, x: IVec3) -> bool {
    exists|q: int| 0 <= q < n && #[trigger] ps[q].contains(x)
}

/// No position occurs twice in the patches, in the same patch or in two.
pub open spec fn patches_disjoint(ps: Seq<Seq<IVec3>>) -> bool {
    forall|q1: int, k1: int, q2: int, k2: int|
        0 <= q1 < ps.len() && 0 <= q2 < ps.len() && 0 <= k1 < ps[q1].len() && 0 <= k2 < ps[q2].len()
            && (q1 != q2 || k1 != k2) ==> #[trigger] ps[q1][k1] != #[trigger] ps[q2][k2]
}

/// Every cell of a patch after the first touches an earlier cell of the same patch.
pub open spec fn patch_connected(p: Seq<IVec3>) -> bool {
    forall|k: int|
        0 < k < p.len() ==> exists|j: int| 0 <= j < k && laterally_adjacent(p[j], #[trigger] p[k])
}

/// Every cell touching a cell of the patch belongs to the patch.
pub open spec fn patch_closed(cells: Seq<IVec3>, p: Seq<IVec3>) -> bool {
    forall|a: IVec3, b: IVec3|
        #![trigger p.contains(a), cells.contains(b)]
        p.contains(a) && cells.contains(b) && laterally_adjacent(a, b) ==> p.contains(b)
}

/// Each patch starts with the first cell, in input order, that no earlier patch holds.
pub open spec fn patches_in_order(cells: Seq<IVec3>, ps: Seq<Seq<IVec3>>) -> bool {
    forall|q: int, t1: int, t2: int|
        #![trigger ps[q][0], cells[t1], cells[t2]]
        0 <= q < ps.len() && 0 <= t2 < t1 < cells.len() && cells[t1] == ps[q][0] ==> in_patches(
            ps,
            q,
            cells[t2],
        )
}

/// The patches are the groups of horizontally connected cells: every patch
/// is non-empty and connected, contains every cell touching it, holds only
/// cells, every cell lies in exactly one patch exactly once, and patches
/// come in the order of their first cell in `cells`.
pub open spec fn patches_partition(cells: Seq<IVec3>, ps: Seq<Seq<IVec3>>) -> bool {
    &&& forall|q: int| 0 <= q < ps.len() ==> #[trigger] ps[q].len() > 0
    &&& forall|q: int, k: int|
        0 <= q < ps.len() && 0 <= k < ps[q].len() ==> cells.contains(#[trigger] ps[q][k])
    &&& forall|x: IVec3| cells.contains(x) ==> in_patches(ps, ps.len() as int, x)
    &&& patches_disjoint(ps)
    &&& forall|q: int| 0 <= q < ps.len() ==> patch_connected(#[trigger] ps[q])
    &&& forall|q: int| 0 <= q < ps.len() ==> patch_closed(cells, #[trigger] ps[q])
    &&& patches_in_order(cells, ps)
}

/// The four horizontal neighbours of a position: +X, -X, +Z, -Z.
fn horizontal_neighbors(pos: IVec3) -> (r: [IVec3; 4])
    requires
        i32::MIN < pos.x < i32::MAX,
        i32::MIN < pos.z < i32::MAX,
    ensures
        forall|k: int| 0 <= k < 4 ==> laterally_adjacent(pos, #[trigger] r@[k]),
        forall|b: IVec3|
            laterally_adjacent(pos, b) ==> (b == r@[0] || b == r@[1] || b == r@[2] || b == r@[3]),
{
    let r = [
        IVec3::new(pos.x + 1, pos.y, pos.z),
        IVec3::new(pos.x - 1, pos.y, pos.z),
        IVec3::new(pos.x, pos.y, pos.z + 1),
        IVec3::new(pos.x, pos.y, pos.z - 1),
    ];
    proof {
        assert forall|b: IVec3|
            laterally_adjacent(pos, b) implies (b == r@[0] || b == r@[1] || b == r@[2] || b
                == r@[3]) by {
            if b.x == pos.x + 1 && b.y == pos.y && b.z == pos.z {
                assert(b == r@[0]);
            } else if b.x == pos.x - 1 && b.y == pos.y && b.z == pos.z {
                assert(b == r@[1]);
            } else if b.x == pos.x && b.y == pos.y && b.z == pos.z + 1 {
                assert(b == r@[2]);
            } else {
                assert(b == r@[3]);
            }
        }
    }
    r
}


/// Coordinates small enough for the horizontal neighbours to be computed.
pub open spec fn cells_in_range(cells: Seq<IVec3>) -> bool {
    forall|i: int|
        0 <= i < cells.len() ==> i32::MIN < #[trigger] cells[i].x < i32::MAX && i32::MIN
            < cells[i].z < i32::MAX
}

proof fn lemma_adjacent_symmetric(a: IVec3, b: IVec3)
    ensures
        laterally_adjacent(a, b) == laterally_adjacent(b, a),
{
}

/// Distinct positions drawn from `cells` are at most as many as `cells`.
proof fn lemma_distinct_subset_len(p: Seq<IVec3>, cells: Seq<IVec3>)
    requires
        no_duplicates(p),
        forall|k: int| 0 <= k < p.len() ==> cells.contains(#[trigger] p[k]),
    ensures
        p.len() <= cells.len(),
{
    p.unique_seq_to_set();
    cells.lemma_cardinality_of_set();
    assert(p.to_set().subset_of(cells.to_set())) by {
        assert forall|x: IVec3| p.to_set().contains(x) implies cells.to_set().contains(x) by {
            let k = choose|k: int| 0 <= k < p.len() && p[k] == x;
            assert(cells.contains(p[k]));
        }
    }
    vstd::seq_lib::seq_to_set_is_finite(cells);
    vstd::set_lib::lemma_len_subset(p.to_set(), cells.to_set());
}

/// Collects, breadth first from `start`, the cells connected to it that are
/// not yet visited, marking them visited.
fn flood_patch(
    cells: &Vec<IVec3>,
    visited: &mut Vec<IVec3>,
    start: IVec3,
    Ghost(prev): Ghost<Seq<Seq<IVec3>>>,
) -> (r: Vec<IVec3>)
    requires
        no_duplicates(cells@),
        cells_in_range(cells@),
        cells@.contains(start),
        forall|x: IVec3| old(visited)@.contains(x) <==> in_patches(prev, prev.len() as int, x),
        !in_patches(prev, prev.len() as int, start),
        forall|q: int| 0 <= q < prev.len() ==> patch_closed(cells@, #[trigger] prev[q]),
        forall|q: int, k: int|
            0 <= q < prev.len() && 0 <= k < prev[q].len() ==> cells@.contains(#[trigger] prev[q][k]),
    ensures
        r@.len() > 0,
        r@[0] == start,
        forall|k: int| 0 <= k < r@.len() ==> cells@.contains(#[trigger] r@[k]),
        forall|k: int| 0 <= k < r@.len() ==> !in_patches(prev, prev.len() as int, #[trigger] r@[k]),
        no_duplicates(r@),
        patch_connected(r@),
        patch_closed(cells@, r@),
        forall|x: IVec3|
            #![trigger final(visited)@.contains(x)]
            final(visited)@.contains(x) <==> (in_patches(prev, prev.len() as int, x)
                || r@.contains(x)),
{
    let mut patch: Vec<IVec3> = Vec::new();
    let mut queue: VecDeque<IVec3> = VecDeque::new();
    queue.push_back(start);
    visited.push(start);
    proof {
        assert forall|x: IVec3|
            visited@.contains(x) <==> (in_patches(prev, prev.len() as int, x) || (patch@
                + queue@).contains(x)) by {
            assert((patch@ + queue@) =~= seq![start]);
            if visited@.contains(x) {
                let j = choose|j: int| 0 <= j < visited@.len() && visited@[j] == x;
                if j < old(visited)@.len() {
                    assert(old(visited)@.contains(x));
                }
            }
            if old(visited)@.contains(x) {
                let j = choose|j: int| 0 <= j < old(visited)@.len() && old(visited)@[j] == x;
                assert(visited@[j] == x);
            }
            if x == start {
                assert(visited@[visited@.len() - 1] == x);
                assert((patch@ + queue@)[0] == x);
            }
        }
    }
    loop
        invariant
            no_duplicates(cells@),
            cells_in_range(cells@),
            (patch@ + queue@).len() <= cells@.len(),
            forall|q: int| 0 <= q < prev.len() ==> patch_closed(cells@, #[trigger] prev[q]),
            forall|q: int, k: int|
                0 <= q < prev.len() && 0 <= k < prev[q].len() ==> cells@.contains(
                    #[trigger] prev[q][k],
                ),
            (patch@ + queue@).len() > 0,
            (patch@ + queue@)[0] == start,
            forall|k: int|
                0 <= k < (patch@ + queue@).len() ==> cells@.contains(#[trigger] (patch@ + queue@)[k]),
            forall|k: int|
                0 <= k < (patch@ + queue@).len() ==> !in_patches(
                    prev,
                    prev.len() as int,
                    #[trigger] (patch@ + queue@)[k],
                ),
            no_duplicates(patch@ + queue@),
            forall|k: int|
                0 < k < (patch@ + queue@).len() ==> exists|j: int|
                    0 <= j < k && j < patch@.len() && laterally_adjacent(
                        (patch@ + queue@)[j],
                        #[trigger] (patch@ + queue@)[k],
                    ),
            forall|x: IVec3|
                visited@.contains(x) <==> (in_patches(prev, prev.len() as int, x) || (patch@
                    + queue@).contains(x)),
            forall|a: IVec3, b: IVec3|
                #![trigger patch@.contains(a), cells@.contains(b)]
                patch@.contains(a) && cells@.contains(b) && laterally_adjacent(a, b)
                    ==> visited@.contains(b),
        ensures
            queue@.len() == 0,
            patch@.len() > 0,
            patch@[0] == start,
            forall|k: int| 0 <= k < patch@.len() ==> cells@.contains(#[trigger] patch@[k]),
            forall|k: int|
                0 <= k < patch@.len() ==> !in_patches(prev, prev.len() as int, #[trigger] patch@[k]),
            no_duplicates(patch@),
            patch_connected(patch@),
            forall|x: IVec3|
                visited@.contains(x) <==> (in_patches(prev, prev.len() as int, x)
                    || patch@.contains(x)),
            forall|a: IVec3, b: IVec3|
                #![trigger patch@.contains(a), cells@.contains(b)]
                patch@.contains(a) && cells@.contains(b) && laterally_adjacent(a, b)
                    ==> visited@.contains(b),
        decreases 2 * cells@.len() - 2 * patch@.len() - queue@.len(),
    {
        let ghost p0 = patch@ + queue@;
        let ghost p0_patch = patch@;
        match queue.pop_front() {
            None => {
                proof {
                    assert(patch@ + queue@ =~= patch@);
                    assert forall|k: int| 0 < k < patch@.len() implies exists|j: int|
                        0 <= j < k && laterally_adjacent(patch@[j], #[trigger] patch@[k]) by {
                        assert(p0[k] == patch@[k]);
                    }
                }
                break;
            },
            Some(pos) => {
                patch.push(pos);
                proof {
                    assert(patch@ + queue@ =~= p0);
                }
                let ghost mid_patch = patch@;
                proof {
                    assert(p0[mid_patch.len() - 1] == pos);
                    assert(cells@.contains(pos));
                    let ci = choose|ci: int| 0 <= ci < cells@.len() && cells@[ci] == pos;
                    assert(i32::MIN < cells@[ci].x < i32::MAX);
                    assert forall|a: IVec3, b: IVec3|
                        #![trigger mid_patch.contains(a), cells@.contains(b)]
                        mid_patch.contains(a) && a != pos && cells@.contains(b)
                            && laterally_adjacent(a, b) implies visited@.contains(b) by {
                        let j = choose|j: int| 0 <= j < mid_patch.len() && mid_patch[j] == a;
                        assert(j < mid_patch.len() - 1);
                        assert(p0_patch.contains(a)) by {
                            assert(p0_patch[j] == a);
                        }
                    }
                }
                let nbrs = horizontal_neighbors(pos);
                let mut k: usize = 0;
                while k < 4
                    invariant
                        k <= 4,
                        no_duplicates(cells@),
                        (patch@ + queue@).len() <= cells@.len(),
                        (patch@ + queue@).len() >= (p0).len(),
                        cells_in_range(cells@),
                        patch@ == mid_patch,
                        mid_patch.last() == pos,
                        mid_patch.len() > 0,
                        forall|t: int| 0 <= t < 4 ==> laterally_adjacent(pos, #[trigger] nbrs@[t]),
                        (patch@ + queue@).len() > 0,
                        (patch@ + queue@)[0] == start,
                        forall|t: int|
                            0 <= t < (patch@ + queue@).len() ==> cells@.contains(
                                #[trigger] (patch@ + queue@)[t],
                            ),
                        forall|t: int|
                            0 <= t < (patch@ + queue@).len() ==> !in_patches(
                                prev,
                                prev.len() as int,
                                #[trigger] (patch@ + queue@)[t],
                            ),
                        no_duplicates(patch@ + queue@),
                        forall|t: int|
                            0 < t < (patch@ + queue@).len() ==> exists|j: int|
                                0 <= j < t && j < patch@.len() && laterally_adjacent(
                                    (patch@ + queue@)[j],
                                    #[trigger] (patch@ + queue@)[t],
                                ),
                        forall|x: IVec3|
                            visited@.contains(x) <==> (in_patches(prev, prev.len() as int, x) || (
                            patch@ + queue@).contains(x)),
                        forall|a: IVec3, b: IVec3|
                            #![trigger mid_patch.contains(a), cells@.contains(b)]
                            mid_patch.contains(a) && a != pos && cells@.contains(b)
                                && laterally_adjacent(a, b) ==> visited@.contains(b),
                        forall|t: int|
                            0 <= t < k && cells@.contains(#[trigger] nbrs@[t]) ==> visited@.contains(
                                nbrs@[t],
                            ),
                    decreases 4 - k,
                {
                    let n = nbrs[k];
                    if !contains_pos(visited, &n) && contains_pos(cells, &n) {
                        let ghost q0 = patch@ + queue@;
                        let ghost v0 = visited@;
                        visited.push(n);
                        queue.push_back(n);
                        proof {
                            assert(patch@ + queue@ =~= q0.push(n));
                            assert(!q0.contains(n));
                            assert forall|t: int| 0 <= t < (patch@ + queue@).len() implies cells@.contains(
                                #[trigger] (patch@ + queue@)[t]) by {
                                if t < q0.len() {
                                    assert((patch@ + queue@)[t] == q0[t]);
                                }
                            }
                            assert(no_duplicates(patch@ + queue@)) by {
                                assert forall|a: int, b: int|
                                    0 <= a < (patch@ + queue@).len() && 0 <= b < (patch@ + queue@).len() && a != b
                                    implies (patch@ + queue@)[a] != (patch@ + queue@)[b] by {
                                    if a < q0.len() && b < q0.len() {
                                    } else if a < q0.len() {
                                        assert(q0[a] == (patch@ + queue@)[a]);
                                    } else if b < q0.len() {
                                        assert(q0[b] == (patch@ + queue@)[b]);
                                    }
                                }
                            }
                            lemma_distinct_subset_len(patch@ + queue@, cells@);
                            assert forall|x: IVec3|
                                visited@.contains(x) <==> (in_patches(prev, prev.len() as int, x)
                                    || (patch@ + queue@).contains(x)) by {
                                if visited@.contains(x) {
                                    let j = choose|j: int| 0 <= j < visited@.len() && visited@[j] == x;
                                    if j < v0.len() {
                                        assert(v0.contains(x));
                                    }
                                }
                                if v0.contains(x) {
                                    let j = choose|j: int| 0 <= j < v0.len() && v0[j] == x;
                                    assert(visited@[j] == x);
                                }
                                if q0.contains(x) {
                                    let j = choose|j: int| 0 <= j < q0.len() && q0[j] == x;
                                    assert((patch@ + queue@)[j] == x);
                                }
                                if (patch@ + queue@).contains(x) {
                                    let j = choose|j: int|
                                        0 <= j < (patch@ + queue@).len() && (patch@ + queue@)[j]
                                            == x;
                                    if j < q0.len() {
                                        assert(q0.contains(x));
                                    }
                                }
                                if x == n {
                                    assert(visited@[visited@.len() - 1] == x);
                                    assert((patch@ + queue@)[q0.len() as int] == x);
                                }
                            }
                            assert forall|t: int|
                                0 < t < (patch@ + queue@).len() implies exists|j: int|
                                    0 <= j < t && j < patch@.len() && laterally_adjacent(
                                        (patch@ + queue@)[j],
                                        #[trigger] (patch@ + queue@)[t],
                                    ) by {
                                if t == q0.len() {
                                    let j = mid_patch.len() - 1;
                                    assert((patch@ + queue@)[j] == pos);
                                } else {
                                    assert((patch@ + queue@)[t] == q0[t]);
                                    let j = choose|j: int|
                                        0 <= j < t && j < patch@.len() && laterally_adjacent(
                                            q0[j],
                                            #[trigger] q0[t],
                                        );
                                    assert((patch@ + queue@)[j] == q0[j]);
                                }
                            }
                            assert forall|t: int|
                                0 <= t < (patch@ + queue@).len() implies !in_patches(
                                    prev,
                                    prev.len() as int,
                                    #[trigger] (patch@ + queue@)[t],
                                ) by {
                                if t < q0.len() {
                                    assert((patch@ + queue@)[t] == q0[t]);
                                } else {
                                    assert(!v0.contains(n));
                                }
                            }
                            assert forall|t: int|
                                0 <= t < (patch@ + queue@).len() implies cells@.contains(
                                    #[trigger] (patch@ + queue@)[t],
                                ) by {
                                if t < q0.len() {
                                    assert((patch@ + queue@)[t] == q0[t]);
                                }
                            }
                            assert forall|a: IVec3, b: IVec3|
                                #![trigger mid_patch.contains(a), cells@.contains(b)]
                                mid_patch.contains(a) && a != pos && cells@.contains(b)
                                    && laterally_adjacent(a, b) implies visited@.contains(b) by {
                                assert(v0.contains(b));
                                let j = choose|j: int| 0 <= j < v0.len() && v0[j] == b;
                                assert(visited@[j] == b);
                            }
                            assert forall|t: int|
                                0 <= t < k + 1 && cells@.contains(#[trigger] nbrs@[t])
                                    implies visited@.contains(nbrs@[t]) by {
                                if t < k && cells@.contains(nbrs@[t]) {
                                    assert(v0.contains(nbrs@[t]));
                                    let j = choose|j: int| 0 <= j < v0.len() && v0[j] == nbrs@[t];
                                    assert(visited@[j] == nbrs@[t]);
                                }
                                if t == k {
                                    assert(visited@[visited@.len() - 1] == n);
                                }
                            }
                        }
                    }
                    k += 1;
                }
                proof {
                    assert forall|a: IVec3, b: IVec3|
                        #![trigger patch@.contains(a), cells@.contains(b)]
                        patch@.contains(a) && cells@.contains(b) && laterally_adjacent(a, b)
                            implies visited@.contains(b) by {
                        if a == pos {
                            assert(b == nbrs@[0] || b == nbrs@[1] || b == nbrs@[2] || b == nbrs@[3]);
                        } else {
                            assert(mid_patch.contains(a));
                        }
                    }
                }
            },
        }
    }
    proof {
        assert forall|a: IVec3, b: IVec3|
            #![trigger patch@.contains(a), cells@.contains(b)]
            patch@.contains(a) && cells@.contains(b) && laterally_adjacent(a, b)
                implies patch@.contains(b) by {
            assert(visited@.contains(b));
            if in_patches(prev, prev.len() as int, b) {
                let q = choose|q: int| 0 <= q < prev.len() && #[trigger] prev[q].contains(b);
                lemma_adjacent_symmetric(a, b);
                let ka = choose|ka: int| 0 <= ka < patch@.len() && patch@[ka] == a;
                assert(cells@.contains(a));
                assert(prev[q].contains(a));
                assert(!in_patches(prev, prev.len() as int, patch@[ka]));
            }
        }
    }
    patch
}


/// Groups surface cells into patches of horizontally connected cells, as a
/// flood fill started from each cell not yet grouped, in the order of
/// `cells`; patch `i` gets the id `i`.
pub fn group_surface_patches(cells: &Vec<IVec3>) -> (r: Vec<Vec<IVec3>>)
    requires
        no_duplicates(cells@),
        cells_in_range(cells@),
    ensures
        patches_partition(cells@, deep(r@)),
{
    let mut visited: Vec<IVec3> = Vec::new();
    let mut patches: Vec<Vec<IVec3>> = Vec::new();
    let mut i: usize = 0;
    while i < cells.len()
        invariant
            i <= cells@.len(),
            no_duplicates(cells@),
            cells_in_range(cells@),
            forall|q: int| 0 <= q < deep(patches@).len() ==> #[trigger] deep(patches@)[q].len() > 0,
            forall|q: int, k: int|
                0 <= q < deep(patches@).len() && 0 <= k < deep(patches@)[q].len() ==> cells@.contains(
                    #[trigger] deep(patches@)[q][k],
                ),
            patches_disjoint(deep(patches@)),
            forall|q: int|
                0 <= q < deep(patches@).len() ==> patch_connected(#[trigger] deep(patches@)[q]),
            forall|q: int|
                0 <= q < deep(patches@).len() ==> patch_closed(cells@, #[trigger] deep(patches@)[q]),
            patches_in_order(cells@, deep(patches@)),
            forall|t: int|
                0 <= t < i ==> in_patches(
                    deep(patches@),
                    deep(patches@).len() as int,
                    #[trigger] cells@[t],
                ),
            forall|x: IVec3|
                visited@.contains(x) <==> in_patches(deep(patches@), deep(patches@).len() as int, x),
        decreases cells@.len() - i,
    {
        let start = cells[i];
        if !contains_pos(&visited, &start) {
            let ghost prev = deep(patches@);
            proof {
                assert(cells@.contains(start)) by {
                    assert(cells@[i as int] == start);
                }
            }
            let patch = flood_patch(cells, &mut visited, start, Ghost(prev));
            let ghost pv = patch@;
            patches.push(patch);
            proof {
                let ps = deep(patches@);
                assert(ps =~= prev.push(pv));
                assert forall|x: IVec3|
                    in_patches(ps, ps.len() as int, x) <==> (in_patches(prev, prev.len() as int, x)
                        || pv.contains(x)) by {
                    if in_patches(ps, ps.len() as int, x) {
                        let q = choose|q: int| 0 <= q < ps.len() && #[trigger] ps[q].contains(x);
                        if q < prev.len() {
                            assert(prev[q].contains(x));
                        }
                    }
                    if in_patches(prev, prev.len() as int, x) {
                        let q = choose|q: int| 0 <= q < prev.len() && #[trigger] prev[q].contains(x);
                        assert(ps[q].contains(x));
                    }
                    if pv.contains(x) {
                        assert(ps[prev.len() as int].contains(x));
                    }
                }
                assert forall|q: int, t1: int, t2: int|
                    #![trigger ps[q][0], cells@[t1], cells@[t2]]
                    0 <= q < ps.len() && 0 <= t2 < t1 < cells@.len() && cells@[t1] == ps[q][0]
                        implies in_patches(ps, q, cells@[t2]) by {
                    if q < prev.len() {
                        assert(ps[q] == prev[q]);
                        assert(in_patches(prev, q, cells@[t2]));
                        let q2 = choose|q2: int| 0 <= q2 < q && #[trigger] prev[q2].contains(cells@[t2]);
                        assert(ps[q2].contains(cells@[t2]));
                    } else {
                        assert(ps[q][0] == start);
                        assert(cells@[i as int] == start);
                        assert(t1 == i);
                        assert(in_patches(prev, prev.len() as int, cells@[t2]));
                        let q2 = choose|q2: int| 0 <= q2 < prev.len() && #[trigger] prev[q2].contains(cells@[t2]);
                        assert(ps[q2].contains(cells@[t2]));
                    }
                }
                assert(patches_disjoint(ps)) by {
                    assert forall|q1: int, k1: int, q2: int, k2: int|
                        0 <= q1 < ps.len() && 0 <= q2 < ps.len() && 0 <= k1 < ps[q1].len() && 0 <= k2
                            < ps[q2].len() && (q1 != q2 || k1 != k2) implies #[trigger] ps[q1][k1]
                            != #[trigger] ps[q2][k2] by {
                        if q1 < prev.len() && q2 < prev.len() {
                            assert(ps[q1] == prev[q1]);
                            assert(ps[q2] == prev[q2]);
                        } else if q1 < prev.len() {
                            assert(ps[q2] == pv);
                            assert(prev[q1].contains(ps[q1][k1]));
                            assert(!in_patches(prev, prev.len() as int, pv[k2]));
                        } else if q2 < prev.len() {
                            assert(ps[q1] == pv);
                            assert(prev[q2].contains(ps[q2][k2]));
                            assert(!in_patches(prev, prev.len() as int, pv[k1]));
                        }
                    }
                }
                assert forall|t: int| 0 <= t < i + 1 implies in_patches(
                    ps,
                    ps.len() as int,
                    #[trigger] cells@[t],
                ) by {
                    if t == i {
                        assert(pv[0] == start);
                        assert(pv.contains(cells@[t]));
                    } else {
                        assert(in_patches(prev, prev.len() as int, cells@[t]));
                        let q = choose|q: int| 0 <= q < prev.len() && #[trigger] prev[q].contains(cells@[t]);
                        assert(ps[q].contains(cells@[t]));
                    }
                }
                assert forall|x: IVec3|
                    visited@.contains(x) <==> in_patches(ps, ps.len() as int, x) by {
                    assert(visited@.contains(x) <==> (in_patches(prev, prev.len() as int, x)
                        || pv.contains(x)));
                }
            }
        } else {
            proof {
                assert(in_patches(deep(patches@), deep(patches@).len() as int, cells@[i as int]));
            }
        }
        i += 1;
    }
    proof {
        let ps = deep(patches@);
        assert forall|x: IVec3| cells@.contains(x) implies in_patches(ps, ps.len() as int, x) by {
            let t = choose|t: int| 0 <= t < cells@.len() && cells@[t] == x;
            assert(in_patches(ps, ps.len() as int, cells@[t]));
        }
    }
    patches
}

/// The box spans exactly the cells: it holds every cell, and each of its
/// six faces touches one.
pub open spec fn tight_box(cells: Seq<IVec3>, b: BoundingBox) -> bool {
    &&& forall|k: int| 0 <= k < cells.len() ==> box_contains(b, #[trigger] cells[k])
    &&& exists|k: int| 0 <= k < cells.len() && #[trigger] cells[k].x == b.min.x
    &&& exists|k: int| 0 <= k < cells.len() && #[trigger] cells[k].y == b.min.y
    &&& exists|k: int| 0 <= k < cells.len() && #[trigger] cells[k].z == b.min.z
    &&& exists|k: int| 0 <= k < cells.len() && #[trigger] cells[k].x == b.max.x
    &&& exists|k: int| 0 <= k < cells.len() && #[trigger] cells[k].y == b.max.y
    &&& exists|k: int| 0 <= k < cells.len() && #[trigger] cells[k].z == b.max.z
}

/// A connected group of surface cells at one height.
#[derive(Debug, Clone)]
pub struct WaterSurfacePatch {
    /// Number of the patch within its chunk.
    pub id: u32,
    /// The patch's cells, in the order they were added.
    pub cells: Vec<IVec3>,
    /// The smallest box holding the cells; `None` while the patch is empty.
    pub bounds: Option<BoundingBox>,
    /// Whether the patch has seen no recent change.
    pub is_stable: bool,
}

impl WaterSurfacePatch {
    /// Well-formedness: `bounds` is the tight box of the cells, or `None`
    /// exactly when there are no cells.
    pub open spec fn wf(&self) -> bool {
        match self.bounds {
            None => self.cells@.len() == 0,
            Some(b) => self.cells@.len() > 0 && tight_box(self.cells@, b),
        }
    }

    /// An empty patch with the given number.
    pub fn new(id: u32) -> (r: Self)
        ensures
            r.wf(),
            r.id == id,
            r.cells@ == Seq::<IVec3>::empty(),
            r.bounds is None,
            !r.is_stable,
    {
        WaterSurfacePatch { id, cells: Vec::new(), bounds: None, is_stable: false }
    }

    /// Adds a cell and grows the bounds to hold it.
    pub fn add_cell(&mut self, local_pos: IVec3)
        requires
            old(self).wf(),
        ensures
            final(self).wf(),
            final(self).cells@ == old(self).cells@.push(local_pos),
            final(self).id == old(self).id,
            final(self).is_stable == old(self).is_stable,
            final(self).bounds == Some(
                match old(self).bounds {
                    None => BoundingBox { min: local_pos, max: local_pos },
                    Some(b) => BoundingBox {
                        min: IVec3 {
                            x: min_spec(b.min.x, local_pos.x),
                            y: min_spec(b.min.y, local_pos.y),
                            z: min_spec(b.min.z, local_pos.z),
                        },
                        max: IVec3 {
                            x: max_spec(b.max.x, local_pos.x),
                            y: max_spec(b.max.y, local_pos.y),
                            z: max_spec(b.max.z, local_pos.z),
                        },
                    },
                },
            ),
    {
        let ghost c0 = self.cells@;
        self.cells.push(local_pos);
        let ghost c = self.cells@;
        let ghost n = c0.len() as int;
        assert(c[n] == local_pos);
        match self.bounds {
            Some(b) => {
                let mut nb = b;
                nb.expand(local_pos);
                self.bounds = Some(nb);
                proof {
                    assert forall|k: int| 0 <= k < c.len() implies box_contains(nb, #[trigger] c[k]) by {
                        if k < n {
                            assert(c[k] == c0[k]);
                            lemma_expand_covers(b, local_pos, c0[k]);
                        } else {
                            lemma_expand_covers(b, local_pos, local_pos);
                        }
                    }
                    let k1 = choose|k: int| 0 <= k < c0.len() && #[trigger] c0[k].x == b.min.x;
                    let k2 = choose|k: int| 0 <= k < c0.len() && #[trigger] c0[k].y == b.min.y;
                    let k3 = choose|k: int| 0 <= k < c0.len() && #[trigger] c0[k].z == b.min.z;
                    let k4 = choose|k: int| 0 <= k < c0.len() && #[trigger] c0[k].x == b.max.x;
                    let k5 = choose|k: int| 0 <= k < c0.len() && #[trigger] c0[k].y == b.max.y;
                    let k6 = choose|k: int| 0 <= k < c0.len() && #[trigger] c0[k].z == b.max.z;
                    assert(c[k1] == c0[k1] && c[k2] == c0[k2] && c[k3] == c0[k3]);
                    assert(c[k4] == c0[k4] && c[k5] == c0[k5] && c[k6] == c0[k6]);
                    assert(tight_box(c, nb));
                }
            },
            None => {
                self.bounds = Some(BoundingBox::from_point(local_pos));
                proof {
                    assert(tight_box(c, BoundingBox { min: local_pos, max: local_pos }));
                }
            },
        }
    }

    /// Whether `pos` is one of the patch's cells.
    pub fn contains(&self, pos: &IVec3) -> (r: bool)
        ensures
            r == self.cells@.contains(*pos),
    {
        contains_pos(&self.cells, pos)
    }

    /// Number of cells.
    pub fn len(&self) -> (r: usize)
        ensures
            r == self.cells@.len(),
    {
        self.cells.len()
    }

    /// Whether the patch has no cells.
    pub fn is_empty(&self) -> (r: bool)
        ensures
            r == (self.cells@.len() == 0),
    {
        self.cells.len() == 0
    }

    /// Width and depth of the patch's bounds, `(0, 0)` when it is empty.
    pub fn xz_extent(&self) -> (r: (i32, i32))
        requires
            self.bounds matches Some(b) ==> b.max.x - b.min.x < i32::MAX && b.max.z - b.min.z
                < i32::MAX && b.min.x <= b.max.x && b.min.z <= b.max.z,
        ensures
            match self.bounds {
                None => r == (0i32, 0i32),
                Some(b) => r.0 == b.max.x - b.min.x + 1 && r.1 == b.max.z - b.min.z + 1,
            },
    {
        match self.bounds {
            Some(b) => b.xz_extent(),
            None => (0, 0),
        }
    }
}

/// The cells of each patch.
pub open spec fn patch_cells(ps: Seq<WaterSurfacePatch>) -> Seq<Seq<IVec3>> {
    ps.map_values(|p: WaterSurfacePatch| p.cells@)
}

/// A partition has at most as many patches as there are cells.
proof fn lemma_patch_count(cells: Seq<IVec3>, ps: Seq<Seq<IVec3>>)
    requires
        patches_partition(cells, ps),
    ensures
        ps.len() <= cells.len(),
{
    let firsts = Seq::new(ps.len(), |q: int| ps[q][0]);
    assert forall|k: int| 0 <= k < firsts.len() implies cells.contains(#[trigger] firsts[k]) by {
        assert(ps[k].len() > 0);
        assert(cells.contains(ps[k][0]));
    }
    assert(no_duplicates(firsts)) by {
        assert forall|i: int, j: int|
            0 <= i < firsts.len() && 0 <= j < firsts.len() && i != j implies firsts[i] != firsts[j] by {
            assert(ps[i].len() > 0 && ps[j].len() > 0);
            assert(ps[i][0] != ps[j][0]);
        }
    }
    lemma_distinct_subset_len(firsts, cells);
}

/// Groups surface cells into numbered patches, as `group_surface_patches`
/// does; patch `i` gets the id `i` and the bounds of its cells, and starts
/// out unstable.
pub fn build_patches(cells: &Vec<IVec3>) -> (r: Vec<WaterSurfacePatch>)
    requires
        no_duplicates(cells@),
        cells_in_range(cells@),
        cells@.len() <= u32::MAX,
    ensures
        patches_partition(cells@, patch_cells(r@)),
        forall|q: int| 0 <= q < r@.len() ==> (#[trigger] r@[q]).id == q && r@[q].wf() && !r@[q].is_stable,
{
    let groups = group_surface_patches(cells);
    proof {
        lemma_patch_count(cells@, deep(groups@));
    }
    let mut patches: Vec<WaterSurfacePatch> = Vec::new();
    let mut q: usize = 0;
    while q < groups.len()
        invariant
            q <= groups@.len(),
            groups@.len() <= u32::MAX,
            patches@.len() == q,
            forall|t: int| 0 <= t < q ==> (#[trigger] patches@[t]).cells@ == groups@[t]@,
            forall|t: int|
                0 <= t < q ==> (#[trigger] patches@[t]).id == t && patches@[t].wf() && !patches@[t].is_stable,
        decreases groups.len() - q,
    {
        let mut patch = WaterSurfacePatch::new(q as u32);
        let group = &groups[q];
        let mut k: usize = 0;
        while k < group.len()
            invariant
                k <= group@.len(),
                patch.cells@ == group@.take(k as int),
                patch.id == q,
                patch.wf(),
                !patch.is_stable,
            decreases group.len() - k,
        {
            patch.add_cell(group[k]);
            proof {
                assert(group@.take(k + 1) =~= group@.take(k as int).push(group@[k as int]));
            }
            k += 1;
        }
        proof {
            assert(group@.take(group@.len() as int) =~= group@);
        }
        patches.push(patch);
        q += 1;
    }
    proof {
        assert(patch_cells(patches@) =~= deep(groups@));
    }
    patches
}

/// Sizes of the largest and smallest patch, `(0, 0)` when there is none.
pub fn patch_size_range(patches: &Vec<WaterSurfacePatch>) -> (r: (usize, usize))
    ensures
        patches@.len() == 0 ==> r == (0usize, 0usize),
        patches@.len() > 0 ==> {
            &&& forall|q: int| 0 <= q < patches@.len() ==> r.1 <= (#[trigger] patches@[q]).cells@.len() <= r.0
            &&& exists|q: int| 0 <= q < patches@.len() && (#[trigger] patches@[q]).cells@.len() == r.0
            &&& exists|q: int| 0 <= q < patches@.len() && (#[trigger] patches@[q]).cells@.len() == r.1
        },
{
    if patches.len() == 0 {
        return (0, 0);
    }
    let mut largest: usize = patches[0].len();
    let mut smallest: usize = patches[0].len();
    let ghost mut arg_largest: int = 0;
    let ghost mut arg_smallest: int = 0;
    let mut q: usize = 1;
    while q < patches.len()
        invariant
            1 <= q <= patches@.len(),
            0 <= arg_largest < q,
            0 <= arg_smallest < q,
            patches@[arg_largest].cells@.len() == largest,
            patches@[arg_smallest].cells@.len() == smallest,
            forall|t: int| 0 <= t < q ==> smallest <= (#[trigger] patches@[t]).cells@.len() <= largest,
        decreases patches.len() - q,
    {
        let n = patches[q].len();
        if n > largest {
            largest = n;
            proof {
                arg_largest = q as int;
            }
        }
        if n < smallest {
            smallest = n;
            proof {
                arg_smallest = q as int;
            }
        }
        q += 1;
    }
    (largest, smallest)
}

} // verus!
