//! Trees, cacti, flowers and grass placed into a chunk during world generation.
//!
//! Each generator first lays out the blocks it wants, in order, as a list of
//! writes (a position inside the chunk and a block kind); the writes are then
//! applied one by one, dropping those that fall outside the chunk. Where two
//! writes hit the same position the later one wins. The random rolls a
//! generator needs are drawn first and handed to the layout as arguments, so
//! each layout is a function of its rolls.
use vstd::prelude::*;

use crate::block_map::BlockMap;
use crate::blocks::{BlockData, BlockDirection, BlockId};
use crate::coords::{abs_spec, CHUNK_SIZE};
use crate::geometry::IVec3;
use crate::rng::{random_below, random_ratio, random_u32};
use crate::world_data::{BiomeId, FloraType};

verus! {

/// Number of cells in the 3 layers of 5 x 5 leaves a canopy is cut from.
pub const CANOPY_CELLS: usize = 75;

/// Number of cells in the 2 layers of 5 x 5 leaves of a big tree's crown.
pub const CROWN_CELLS: usize = 50;

/// Whether a local position lies inside a chunk.
pub open spec fn in_chunk(p: IVec3) -> bool {
    &&& 0 <= p.x < CHUNK_SIZE
    &&& 0 <= p.y < CHUNK_SIZE
    &&& 0 <= p.z < CHUNK_SIZE
}

/// A freshly generated block of kind `b`, facing front.
pub open spec fn placed(b: BlockId) -> BlockData {
    BlockData { id: b, direction: BlockDirection::Front, breaking_progress: 0 }
}

/// The chunk after trying each write in turn: a write inside the chunk sets
/// its position, one outside is dropped.
pub open spec fn place_all(m: Map<IVec3, BlockData>, w: Seq<(IVec3, BlockId)>) -> Map<
    IVec3,
    BlockData,
>
    decreases w.len(),
{
    if w.len() == 0 {
        m
    } else {
        let prev = place_all(m, w.drop_last());
        if in_chunk(w.last().0) {
            prev.insert(w.last().0, placed(w.last().1))
        } else {
            prev
        }
    }
}

/// `(r as i32) % 2` with Rust's remainder (which takes the sign of the
/// dividend): a raw roll read as a signed number, reduced to -1, 0 or 1.
pub open spec fn signed_rem2(r: u32) -> int {
    if r >= 0x8000_0000 {
        -((r % 2) as int)
    } else {
        (r % 2) as int
    }
}

/// Position at an offset from `(x, y, z)`.
pub open spec fn at(x: int, y: int, z: int) -> IVec3 {
    IVec3 { x: x as i32, y: y as i32, z: z as i32 }
}

/// A vertical column of `n` blocks of kind `b` from `(x, y, z)` upwards.
pub open spec fn column_writes(x: int, y: int, z: int, n: int, b: BlockId) -> Seq<(IVec3, BlockId)> {
    Seq::new(n as nat, |dy: int| (at(x, y + dy, z), b))
}

/// Layer, x offset and z offset of cell `k` of a 5 x 5 layered block of
/// cells, walked layer by layer, then by x offset, then by z offset.
pub open spec fn cell_layer(k: int) -> int {
    k / 25
}

/// X offset (in `-2..=2`) of cell `k`.
pub open spec fn cell_dx(k: int) -> int {
    (k / 5) % 5 - 2
}

/// Z offset (in `-2..=2`) of cell `k`.
pub open spec fn cell_dz(k: int) -> int {
    k % 5 - 2
}

/// Whether a canopy cell gets a leaf: cells closer (in Manhattan distance)
/// than `3 - layer` always do; on the rim at exactly that distance, in the
/// two lower layers, the cell's roll decides.
pub open spec fn canopy_selected(layer: int, dx: int, dz: int, roll: bool) -> bool {
    let d = abs_spec(dx) + abs_spec(dz);
    d < 3 - layer || (d == 3 - layer && roll && layer < 2)
}

/// Leaves of the first `n` canopy cells over `(x, y0, z)`, cell `k` lying in
/// layer `y0 + cell_layer(k)`.
pub open spec fn canopy_writes(
    x: int,
    y0: int,
    z: int,
    b: BlockId,
    rolls: Seq<bool>,
    n: int,
) -> Seq<(IVec3, BlockId)>
    decreases n,
{
    if n <= 0 {
        seq![]
    } else {
        let k = n - 1;
        let prev = canopy_writes(x, y0, z, b, rolls, k);
        if canopy_selected(cell_layer(k), cell_dx(k), cell_dz(k), rolls[k]) {
            prev.push((at(x + cell_dx(k), y0 + cell_layer(k), z + cell_dz(k)), b))
        } else {
            prev
        }
    }
}

/// Whether a crown cell gets a leaf: all but the centre column and the four
/// corners.
pub open spec fn crown_selected(dx: int, dz: int) -> bool {
    !((dx == 0 && dz == 0) || (abs_spec(dx) == 2 && abs_spec(dz) == 2))
}

/// Leaves of the first `n` crown cells over `(x, y0, z)`.
pub open spec fn crown_writes(x: int, y0: int, z: int, b: BlockId, n: int) -> Seq<
    (IVec3, BlockId),
>
    decreases n,
{
    if n <= 0 {
        seq![]
    } else {
        let k = n - 1;
        let prev = crown_writes(x, y0, z, b, k);
        if crown_selected(cell_dx(k), cell_dz(k)) {
            prev.push((at(x + cell_dx(k), y0 + cell_layer(k), z + cell_dz(k)), b))
        } else {
            prev
        }
    }
}

/// Trunk height of a tree: 3 to 5 blocks.
pub open spec fn tree_height(roll: u8) -> int {
    3 + (roll % 3) as int
}

/// The writes of a tree at `(x, y, z)`: the trunk, the canopy whose lowest
/// layer holds the trunk's top block, and the trunk's top block again.
pub open spec fn tree_writes(
    x: int,
    y: int,
    z: int,
    trunk: BlockId,
    leaves: BlockId,
    height_roll: u8,
    rolls: Seq<bool>,
) -> Seq<(IVec3, BlockId)> {
    let h = tree_height(height_roll);
    column_writes(x, y, z, h, trunk) + canopy_writes(x, y + h - 1, z, leaves, rolls, CANOPY_CELLS as int) + seq![
        (at(x, y + h - 1, z), trunk),
    ]
}

/// Trunk height of a big tree: 4 to 6 blocks.
pub open spec fn big_tree_height(roll: u8) -> int {
    4 + (roll % 3) as int
}

/// The four writes of step `i` of a branch starting at `(bx, by, bz)`: leaves
/// on both sides and above, wood in the middle.
pub open spec fn branch_step(bx: int, by: int, bz: int, i: int, trunk: BlockId, leaves: BlockId) -> Seq<
    (IVec3, BlockId),
> {
    seq![
        (at(bx + i, by, bz + 1), leaves),
        (at(bx + i, by, bz - 1), leaves),
        (at(bx + i, by + 1, bz), leaves),
        (at(bx + i, by, bz), trunk),
    ]
}

/// The first `n` steps of a branch.
pub open spec fn branch_steps(bx: int, by: int, bz: int, n: int, trunk: BlockId, leaves: BlockId) -> Seq<
    (IVec3, BlockId),
>
    decreases n,
{
    if n <= 0 {
        seq![]
    } else {
        branch_steps(bx, by, bz, n - 1, trunk, leaves) + branch_step(bx, by, bz, n - 1, trunk, leaves)
    }
}

/// Rolls of one branch of a big tree: x shift, z shift, height shift, length.
#[derive(Clone, Copy, Debug, PartialEq, Eq, Structural)]
pub struct BranchRolls {
    pub x_roll: u32,
    pub z_roll: u32,
    pub y_roll: u32,
    pub length_roll: u8,
}

/// Height of a branch: one or two below the crown (by its roll), at least 2.
pub open spec fn branch_level(leaf_start: int, r: BranchRolls) -> int {
    let v = leaf_start - 1 - signed_rem2(r.y_roll);
    if v > 2 {
        v
    } else {
        2
    }
}

/// Length of a branch: 1 or 2 steps.
pub open spec fn branch_length(r: BranchRolls) -> int {
    (r.length_roll % 2) as int + 1
}

/// The writes of one branch of a big tree at `(x, y, z)` whose crown starts
/// at `leaf_start`: its steps, then a leaf at its tip.
pub open spec fn branch_writes(
    x: int,
    z: int,
    leaf_start: int,
    r: BranchRolls,
    trunk: BlockId,
    leaves: BlockId,
) -> Seq<(IVec3, BlockId)> {
    let bx = x + signed_rem2(r.x_roll);
    let bz = z + signed_rem2(r.z_roll);
    let by = branch_level(leaf_start, r);
    let n = branch_length(r);
    branch_steps(bx, by, bz, n, trunk, leaves).push((at(bx + n, by, bz), leaves))
}

/// The writes of a big tree at `(x, y, z)`: two branches, the trunk, a two
/// layer crown starting two blocks below the trunk's top, a leaf above the
/// crown's centre and a canopy over it.
pub open spec fn big_tree_writes(
    x: int,
    y: int,
    z: int,
    trunk: BlockId,
    leaves: BlockId,
    height_roll: u8,
    first: BranchRolls,
    second: BranchRolls,
    rolls: Seq<bool>,
) -> Seq<(IVec3, BlockId)> {
    let h = big_tree_height(height_roll);
    let leaf_start = y + h - 2;
    branch_writes(x, z, leaf_start, first, trunk, leaves) + branch_writes(
        x,
        z,
        leaf_start,
        second,
        trunk,
        leaves,
    ) + column_writes(x, y, z, h, trunk) + crown_writes(x, leaf_start, z, leaves, CROWN_CELLS as int) + seq![
        (at(x, leaf_start + 2, z), leaves),
    ] + canopy_writes(x, leaf_start + 2, z, leaves, rolls, CANOPY_CELLS as int)
}

/// Height of a cactus: 2 or 3 blocks.
pub open spec fn cactus_column_height(roll: u8) -> int {
    2 + (roll % 2) as int
}

/// Coordinates that leave room for every block a generator may place around
/// them without leaving the range of `i32`.
pub open spec fn generator_origin_ok(x: i32, y: i32, z: i32) -> bool {
    &&& i32::MIN + 3 <= x <= i32::MAX - 3
    &&& i32::MIN + 3 <= z <= i32::MAX - 3
    &&& y <= i32::MAX - 10
}

/// Places `block` at `(x, y, z)` if that position lies inside the chunk.
pub fn try_place_block(
    chunk: &mut BlockMap,
    x: i32,
    y: i32,
    z: i32,
    block: BlockId,
    direction: BlockDirection,
)
    requires
        old(chunk).wf(),
    ensures
        final(chunk).wf(),
        final(chunk)@ == (if in_chunk(IVec3 { x, y, z }) {
            old(chunk)@.insert(IVec3 { x, y, z }, BlockData { id: block, direction, breaking_progress: 0 })
        } else {
            old(chunk)@
        }),
{
    if x >= 0 && x < CHUNK_SIZE && y >= 0 && y < CHUNK_SIZE && z >= 0 && z < CHUNK_SIZE {
        chunk.insert(IVec3::new(x, y, z), BlockData::new(block, direction));
    }
}

/// Applies the writes in order, each as `try_place_block` with the block
/// facing front.
pub fn place_blocks(chunk: &mut BlockMap, writes: &Vec<(IVec3, BlockId)>)
    requires
        old(chunk).wf(),
    ensures
        final(chunk).wf(),
        final(chunk)@ == place_all(old(chunk)@, writes@),
{
    let ghost m0 = chunk@;
    let mut i: usize = 0;
    while i < writes.len()
        invariant
            i <= writes@.len(),
            chunk.wf(),
            chunk@ == place_all(m0, writes@.take(i as int)),
        decreases writes.len() - i,
    {
        let (p, b) = writes[i];
        try_place_block(chunk, p.x, p.y, p.z, b, BlockDirection::Front);
        proof {
            assert(writes@.take(i + 1).drop_last() =~= writes@.take(i as int));
        }
        i += 1;
    }
    proof {
        assert(writes@.take(writes@.len() as int) =~= writes@);
    }
}

fn push_column(v: &mut Vec<(IVec3, BlockId)>, x: i32, y: i32, z: i32, n: i32, b: BlockId)
    requires
        0 <= n,
        y + n <= i32::MAX,
    ensures
        final(v)@ == old(v)@ + column_writes(x as int, y as int, z as int, n as int, b),
{
    let ghost v0 = v@;
    let mut dy: i32 = 0;
    while dy < n
        invariant
            0 <= dy <= n,
            y + n <= i32::MAX,
            v@ == v0 + column_writes(x as int, y as int, z as int, dy as int, b),
        decreases n - dy,
    {
        v.push((IVec3::new(x, y + dy, z), b));
        proof {
            assert(v@ =~= v0 + column_writes(x as int, y as int, z as int, dy + 1, b));
        }
        dy += 1;
    }
}

proof fn lemma_cell(layer: int, i: int, j: int)
    requires
        0 <= layer < 3,
        0 <= i < 5,
        0 <= j < 5,
    ensures
        cell_layer(layer * 25 + i * 5 + j) == layer,
        cell_dx(layer * 25 + i * 5 + j) == i - 2,
        cell_dz(layer * 25 + i * 5 + j) == j - 2,
{
    let k = layer * 25 + i * 5 + j;
    assert(k / 25 == layer) by (nonlinear_arith)
        requires
            k == layer * 25 + i * 5 + j,
            0 <= i < 5,
            0 <= j < 5,
    ;
    assert(k / 5 == layer * 5 + i) by (nonlinear_arith)
        requires
            k == layer * 25 + i * 5 + j,
            0 <= j < 5,
    ;
    assert((layer * 5 + i) % 5 == i) by (nonlinear_arith)
        requires
            0 <= i < 5,
            0 <= layer,
    ;
    assert(k % 5 == j) by (nonlinear_arith)
        requires
            k == layer * 25 + i * 5 + j,
            0 <= j < 5,
            0 <= layer,
            0 <= i,
    ;
}

fn push_canopy(
    v: &mut Vec<(IVec3, BlockId)>,
    x: i32,
    y0: i32,
    z: i32,
    b: BlockId,
    rolls: &Vec<bool>,
)
    requires
        rolls@.len() == CANOPY_CELLS,
        i32::MIN + 2 <= x <= i32::MAX - 2,
        i32::MIN + 2 <= z <= i32::MAX - 2,
        y0 <= i32::MAX - 3,
    ensures
        final(v)@ == old(v)@ + canopy_writes(x as int, y0 as int, z as int, b, rolls@, CANOPY_CELLS as int),
{
    let ghost v0 = v@;
    let mut layer: i32 = 0;
    while layer < 3
        invariant
            0 <= layer <= 3,
            rolls@.len() == CANOPY_CELLS,
            i32::MIN + 2 <= x <= i32::MAX - 2,
            i32::MIN + 2 <= z <= i32::MAX - 2,
            y0 <= i32::MAX - 3,
            v@ == v0 + canopy_writes(x as int, y0 as int, z as int, b, rolls@, layer * 25),
        decreases 3 - layer,
    {
        let mut ox: i32 = -2;
        while ox <= 2
            invariant
                0 <= layer < 3,
                -2 <= ox <= 3,
                rolls@.len() == CANOPY_CELLS,
                i32::MIN + 2 <= x <= i32::MAX - 2,
                i32::MIN + 2 <= z <= i32::MAX - 2,
                y0 <= i32::MAX - 3,
                v@ == v0 + canopy_writes(
                    x as int,
                    y0 as int,
                    z as int,
                    b,
                    rolls@,
                    layer * 25 + (ox + 2) * 5,
                ),
            decreases 3 - ox,
        {
            let mut oz: i32 = -2;
            while oz <= 2
                invariant
                    0 <= layer < 3,
                    -2 <= ox <= 2,
                    -2 <= oz <= 3,
                    rolls@.len() == CANOPY_CELLS,
                    i32::MIN + 2 <= x <= i32::MAX - 2,
                    i32::MIN + 2 <= z <= i32::MAX - 2,
                    y0 <= i32::MAX - 3,
                    v@ == v0 + canopy_writes(
                        x as int,
                        y0 as int,
                        z as int,
                        b,
                        rolls@,
                        layer * 25 + (ox + 2) * 5 + (oz + 2),
                    ),
                decreases 3 - oz,
            {
                let k: usize = (layer * 25 + (ox + 2) * 5 + (oz + 2)) as usize;
                proof {
                    lemma_cell(layer as int, ox + 2, oz + 2);
                }
                let ax: i32 = if ox < 0 { -ox } else { ox };
                let az: i32 = if oz < 0 { -oz } else { oz };
                let d = ax + az;
                let cond1 = d < 3 - layer;
                let cond2 = d == 3 - layer && rolls[k] && layer < 2;
                if cond1 || cond2 {
                    v.push((IVec3::new(x + ox, y0 + layer, z + oz), b));
                }
                proof {
                    assert(v@ =~= v0 + canopy_writes(
                        x as int,
                        y0 as int,
                        z as int,
                        b,
                        rolls@,
                        k + 1,
                    ));
                }
                oz += 1;
            }
            ox += 1;
        }
        layer += 1;
    }
}

fn push_crown(v: &mut Vec<(IVec3, BlockId)>, x: i32, y0: i32, z: i32, b: BlockId)
    requires
        i32::MIN + 2 <= x <= i32::MAX - 2,
        i32::MIN + 2 <= z <= i32::MAX - 2,
        y0 <= i32::MAX - 2,
    ensures
        final(v)@ == old(v)@ + crown_writes(x as int, y0 as int, z as int, b, CROWN_CELLS as int),
{
    let ghost v0 = v@;
    let mut layer: i32 = 0;
    while layer < 2
        invariant
            0 <= layer <= 2,
            i32::MIN + 2 <= x <= i32::MAX - 2,
            i32::MIN + 2 <= z <= i32::MAX - 2,
            y0 <= i32::MAX - 2,
            v@ == v0 + crown_writes(x as int, y0 as int, z as int, b, layer * 25),
        decreases 2 - layer,
    {
        let mut ox: i32 = -2;
        while ox <= 2
            invariant
                0 <= layer < 2,
                -2 <= ox <= 3,
                i32::MIN + 2 <= x <= i32::MAX - 2,
                i32::MIN + 2 <= z <= i32::MAX - 2,
                y0 <= i32::MAX - 2,
                v@ == v0 + crown_writes(
                    x as int,
                    y0 as int,
                    z as int,
                    b,
                    layer * 25 + (ox + 2) * 5,
                ),
            decreases 3 - ox,
        {
            let mut oz: i32 = -2;
            while oz <= 2
                invariant
                    0 <= layer < 2,
                    -2 <= ox <= 2,
                    -2 <= oz <= 3,
                    i32::MIN + 2 <= x <= i32::MAX - 2,
                    i32::MIN + 2 <= z <= i32::MAX - 2,
                    y0 <= i32::MAX - 2,
                    v@ == v0 + crown_writes(
                        x as int,
                        y0 as int,
                        z as int,
                        b,
                        layer * 25 + (ox + 2) * 5 + (oz + 2),
                    ),
                decreases 3 - oz,
            {
                let ghost k = layer * 25 + (ox + 2) * 5 + (oz + 2);
                proof {
                    lemma_cell(layer as int, ox + 2, oz + 2);
                }
                let ax: i32 = if ox < 0 { -ox } else { ox };
                let az: i32 = if oz < 0 { -oz } else { oz };
                if !(ox == 0 && oz == 0 || ax == 2 && az == 2) {
                    v.push((IVec3::new(x + ox, y0 + layer, z + oz), b));
                }
                proof {
                    assert(v@ =~= v0 + crown_writes(x as int, y0 as int, z as int, b, k + 1));
                }
                oz += 1;
            }
            ox += 1;
        }
        layer += 1;
    }
}

/// Lays out a tree at `(x, y, z)`: `3 + height_roll % 3` blocks of trunk, a
/// canopy of leaves whose rim cells are kept where their roll says so, and
/// the trunk's top block written last so that it stays wood.
pub fn tree_layout(
    x: i32,
    y: i32,
    z: i32,
    trunk: BlockId,
    leaves: BlockId,
    height_roll: u8,
    rolls: &Vec<bool>,
) -> (r: Vec<(IVec3, BlockId)>)
    requires
        generator_origin_ok(x, y, z),
        rolls@.len() == CANOPY_CELLS,
    ensures
        r@ == tree_writes(x as int, y as int, z as int, trunk, leaves, height_roll, rolls@),
{
    let trunk_height: u8 = 3 + height_roll % 3;
    let h = trunk_height as i32;
    let mut v: Vec<(IVec3, BlockId)> = Vec::new();
    push_column(&mut v, x, y, z, h, trunk);
    let leaf_start_y = y + h - 1;
    push_canopy(&mut v, x, leaf_start_y, z, leaves, rolls);
    let top_trunk_y = y + h - 1;
    v.push((IVec3::new(x, top_trunk_y, z), trunk));
    proof {
        assert(v@ =~= tree_writes(x as int, y as int, z as int, trunk, leaves, height_roll, rolls@));
    }
    v
}

/// `(r as i32) % 2` computed on the raw roll.
fn signed_rem2_exec(r: u32) -> (s: i32)
    ensures
        s == signed_rem2(r),
{
    let m = (r % 2) as i32;
    if r >= 0x8000_0000 {
        -m
    } else {
        m
    }
}

fn push_branch(
    v: &mut Vec<(IVec3, BlockId)>,
    x: i32,
    z: i32,
    leaf_start: i32,
    r: &BranchRolls,
    trunk: BlockId,
    leaves: BlockId,
)
    requires
        i32::MIN + 3 <= x <= i32::MAX - 3,
        i32::MIN + 3 <= z <= i32::MAX - 3,
        i32::MIN + 2 <= leaf_start <= i32::MAX - 2,
    ensures
        final(v)@ == old(v)@ + branch_writes(x as int, z as int, leaf_start as int, *r, trunk, leaves),
{
    let ghost v0 = v@;
    let branch_x = x + signed_rem2_exec(r.x_roll);
    let branch_z = z + signed_rem2_exec(r.z_roll);
    let lowered = leaf_start - 1 - signed_rem2_exec(r.y_roll);
    let branch_y = if lowered > 2 { lowered } else { 2 };
    let prof: u8 = r.length_roll % 2 + 1;
    let mut dx: u8 = 0;
    while dx < prof
        invariant
            0 <= dx <= prof <= 2,
            prof == branch_length(*r),
            branch_x == x + signed_rem2(r.x_roll),
            branch_z == z + signed_rem2(r.z_roll),
            branch_y == branch_level(leaf_start as int, *r),
            i32::MIN + 3 <= x <= i32::MAX - 3,
            i32::MIN + 3 <= z <= i32::MAX - 3,
            2 <= branch_y <= i32::MAX - 2,
            v@ == v0 + branch_steps(
                branch_x as int,
                branch_y as int,
                branch_z as int,
                dx as int,
                trunk,
                leaves,
            ),
        decreases prof - dx,
    {
        let bx = branch_x + dx as i32;
        v.push((IVec3::new(bx, branch_y, branch_z + 1), leaves));
        v.push((IVec3::new(bx, branch_y, branch_z - 1), leaves));
        v.push((IVec3::new(bx, branch_y + 1, branch_z), leaves));
        v.push((IVec3::new(bx, branch_y, branch_z), trunk));
        proof {
            assert(v@ =~= v0 + branch_steps(
                branch_x as int,
                branch_y as int,
                branch_z as int,
                dx + 1,
                trunk,
                leaves,
            ));
        }
        dx += 1;
    }
    let final_bx = branch_x + prof as i32;
    v.push((IVec3::new(final_bx, branch_y, branch_z), leaves));
    proof {
        assert(v@ =~= v0 + branch_writes(x as int, z as int, leaf_start as int, *r, trunk, leaves));
    }
}

/// Lays out a big tree at `(x, y, z)`: two branches shaped by their rolls,
/// `4 + height_roll % 3` blocks of trunk, a two-layer crown starting two
/// blocks below the trunk's top, one leaf above the crown's centre, and a
/// canopy over it whose rim cells are kept where their roll says so.
pub fn big_tree_layout(
    x: i32,
    y: i32,
    z: i32,
    trunk: BlockId,
    leaves: BlockId,
    height_roll: u8,
    first: &BranchRolls,
    second: &BranchRolls,
    rolls: &Vec<bool>,
) -> (r: Vec<(IVec3, BlockId)>)
    requires
        generator_origin_ok(x, y, z),
        i32::MIN + 2 <= y,
        rolls@.len() == CANOPY_CELLS,
    ensures
        r@ == big_tree_writes(
            x as int,
            y as int,
            z as int,
            trunk,
            leaves,
            height_roll,
            *first,
            *second,
            rolls@,
        ),
{
    let trunk_height: u8 = 4 + height_roll % 3;
    let h = trunk_height as i32;
    let leaf_start_y = y + h - 2;
    let mut v: Vec<(IVec3, BlockId)> = Vec::new();
    push_branch(&mut v, x, z, leaf_start_y, first, trunk, leaves);
    push_branch(&mut v, x, z, leaf_start_y, second, trunk, leaves);
    push_column(&mut v, x, y, z, h, trunk);
    push_crown(&mut v, x, leaf_start_y, z, leaves);
    let top_y = leaf_start_y + 2;
    v.push((IVec3::new(x, top_y, z), leaves));
    push_canopy(&mut v, x, leaf_start_y + 2, z, leaves, rolls);
    proof {
        assert(v@ =~= big_tree_writes(
            x as int,
            y as int,
            z as int,
            trunk,
            leaves,
            height_roll,
            *first,
            *second,
            rolls@,
        ));
    }
    v
}

/// Lays out a cactus at `(x, y, z)`: a column of `2 + height_roll % 2` blocks.
pub fn cactus_layout(x: i32, y: i32, z: i32, cactus: BlockId, height_roll: u8) -> (r: Vec<
    (IVec3, BlockId),
>)
    requires
        y <= i32::MAX - 3,
    ensures
        r@ == column_writes(x as int, y as int, z as int, cactus_column_height(height_roll), cactus),
{
    let cactus_height: u8 = 2 + height_roll % 2;
    let mut v: Vec<(IVec3, BlockId)> = Vec::new();
    push_column(&mut v, x, y, z, cactus_height as i32, cactus);
    proof {
        assert(v@ =~= column_writes(x as int, y as int, z as int, cactus_column_height(height_roll), cactus));
    }
    v
}

/// A random byte (the low byte of a random `u32`).
fn roll_byte() -> u8 {
    (random_u32() % 256) as u8
}

/// One roll per canopy cell, each `true` with probability one in five.
fn roll_canopy() -> (r: Vec<bool>)
    ensures
        r@.len() == CANOPY_CELLS,
{
    let mut rolls: Vec<bool> = Vec::new();
    let mut i: usize = 0;
    while i < CANOPY_CELLS
        invariant
            i <= CANOPY_CELLS,
            rolls@.len() == i,
        decreases CANOPY_CELLS - i,
    {
        rolls.push(random_ratio(1, 5));
        i += 1;
    }
    rolls
}

/// Grows a tree at `(x, y, z)` with freshly drawn rolls.
pub fn generate_tree(
    chunk: &mut BlockMap,
    x: i32,
    y: i32,
    z: i32,
    trunk: BlockId,
    leaves: BlockId,
)
    requires
        old(chunk).wf(),
        generator_origin_ok(x, y, z),
    ensures
        final(chunk).wf(),
        exists|height_roll: u8, rolls: Seq<bool>|
            rolls.len() == CANOPY_CELLS && final(chunk)@ == place_all(
                old(chunk)@,
                tree_writes(x as int, y as int, z as int, trunk, leaves, height_roll, rolls),
            ),
{
    let height_roll = roll_byte();
    let rolls = roll_canopy();
    let writes = tree_layout(x, y, z, trunk, leaves, height_roll, &rolls);
    place_blocks(chunk, &writes);
}

fn roll_branch() -> (r: BranchRolls) {
    let x_roll = random_u32();
    let z_roll = random_u32();
    let y_roll = random_u32();
    let length_roll = roll_byte();
    BranchRolls { x_roll, z_roll, y_roll, length_roll }
}

/// Grows a big tree at `(x, y, z)` with freshly drawn rolls.
pub fn generate_big_tree(
    chunk: &mut BlockMap,
    x: i32,
    y: i32,
    z: i32,
    trunk: BlockId,
    leaves: BlockId,
)
    requires
        old(chunk).wf(),
        generator_origin_ok(x, y, z),
        i32::MIN + 2 <= y,
    ensures
        final(chunk).wf(),
        exists|height_roll: u8, first: BranchRolls, second: BranchRolls, rolls: Seq<bool>|
            rolls.len() == CANOPY_CELLS && final(chunk)@ == place_all(
                old(chunk)@,
                big_tree_writes(
                    x as int,
                    y as int,
                    z as int,
                    trunk,
                    leaves,
                    height_roll,
                    first,
                    second,
                    rolls,
                ),
            ),
{
    let height_roll = roll_byte();
    let first = roll_branch();
    let second = roll_branch();
    let rolls = roll_canopy();
    let writes = big_tree_layout(x, y, z, trunk, leaves, height_roll, &first, &second, &rolls);
    place_blocks(chunk, &writes);
}

/// Grows a cactus at `(x, y, z)` with a freshly drawn height.
pub fn generate_cactus(chunk: &mut BlockMap, x: i32, y: i32, z: i32, cactus: BlockId)
    requires
        old(chunk).wf(),
        y <= i32::MAX - 3,
    ensures
        final(chunk).wf(),
        exists|height_roll: u8|
            final(chunk)@ == place_all(
                old(chunk)@,
                column_writes(x as int, y as int, z as int, cactus_column_height(height_roll), cactus),
            ),
{
    let height_roll = roll_byte();
    let writes = cactus_layout(x, y, z, cactus, height_roll);
    place_blocks(chunk, &writes);
}

/// Whether `block` occurs in `blocks`.
fn contains_block(blocks: &Vec<BlockId>, block: BlockId) -> (r: bool)
    ensures
        r == blocks@.contains(block),
{
    let mut i: usize = 0;
    while i < blocks.len()
        invariant
            i <= blocks@.len(),
            forall|j: int| 0 <= j < i ==> blocks@[j] != block,
        decreases blocks.len() - i,
    {
        if blocks[i] == block {
            return true;
        }
        i += 1;
    }
    false
}

/// Whether flora grows on a surface block for a roll in `0..1000`: never
/// with a zero chance or on a block that does not carry that flora;
/// otherwise when the roll is below the chance in thousandths.
pub open spec fn flora_roll_spec(
    threshold_permille: u32,
    current_block: BlockId,
    valid_surface_blocks: Seq<BlockId>,
    roll: u32,
) -> bool {
    threshold_permille > 0 && valid_surface_blocks.contains(current_block) && roll
        < threshold_permille
}

/// Decides whether flora grows on a surface block, given a roll in `0..1000`.
pub fn flora_roll_succeeds(
    threshold_permille: u32,
    current_block: BlockId,
    valid_surface_blocks: &Vec<BlockId>,
    roll: u32,
) -> (r: bool)
    ensures
        r == flora_roll_spec(threshold_permille, current_block, valid_surface_blocks@, roll),
{
    threshold_permille > 0 && contains_block(valid_surface_blocks, current_block) && roll
        < threshold_permille
}

/// Rolls whether flora grows on a surface block: never with a zero chance
/// or on a block that does not carry that flora; otherwise with a chance of
/// `threshold_permille` in a thousand (always from a thousand on), drawing
/// a roll in `0..1000`.
pub fn should_place_flora(
    threshold_permille: u32,
    current_block: BlockId,
    valid_surface_blocks: &Vec<BlockId>,
) -> (r: bool)
    ensures
        exists|roll: u32|
            roll < 1000 && r == flora_roll_spec(
                threshold_permille,
                current_block,
                valid_surface_blocks@,
                roll,
            ),
{
    if threshold_permille == 0 {
        assert(!flora_roll_spec(threshold_permille, current_block, valid_surface_blocks@, 0));
        return false;
    }
    if !contains_block(valid_surface_blocks, current_block) {
        assert(!flora_roll_spec(threshold_permille, current_block, valid_surface_blocks@, 0));
        return false;
    }
    let roll = random_below(1000);
    flora_roll_succeeds(threshold_permille, current_block, valid_surface_blocks, roll)
}

/// A request, left by the chunk below, to grow flora on the bottom layer of
/// this chunk.
#[derive(Clone, Copy, Debug, PartialEq, Eq, Structural)]
pub struct FloraRequest {
    pub local_x: i32,
    pub local_z: i32,
    pub flora_type: FloraType,
    /// The biome of the column below that made the request.
    pub biome_type: BiomeId,
}

/// The flower a roll picks: a dandelion or a poppy.
pub open spec fn flower_for(roll: bool) -> BlockId {
    if roll {
        BlockId::Dandelion
    } else {
        BlockId::Poppy
    }
}

/// Grows the requested flora at height 0 of the chunk: a flower (dandelion or
/// poppy, even odds) or tall grass is set at the requested position as is;
/// trees, big trees (of oak) and cacti are grown there.
pub fn fulfill_flora_request(chunk: &mut BlockMap, request: &FloraRequest)
    requires
        old(chunk).wf(),
        generator_origin_ok(request.local_x, 0, request.local_z),
    ensures
        final(chunk).wf(),
        request.flora_type == FloraType::Flower ==> exists|roll: bool|
            final(chunk)@ == old(chunk)@.insert(
                IVec3 { x: request.local_x, y: 0, z: request.local_z },
                placed(flower_for(roll)),
            ),
        request.flora_type == FloraType::TallGrass ==> final(chunk)@ == old(chunk)@.insert(
            IVec3 { x: request.local_x, y: 0, z: request.local_z },
            placed(BlockId::TallGrass),
        ),
        request.flora_type == FloraType::Tree ==> exists|height_roll: u8, rolls: Seq<bool>|
            rolls.len() == CANOPY_CELLS && final(chunk)@ == place_all(
                old(chunk)@,
                tree_writes(
                    request.local_x as int,
                    0,
                    request.local_z as int,
                    BlockId::OakLog,
                    BlockId::OakLeaves,
                    height_roll,
                    rolls,
                ),
            ),
        request.flora_type == FloraType::BigTree ==> exists|
            height_roll: u8,
            first: BranchRolls,
            second: BranchRolls,
            rolls: Seq<bool>,
        |
            rolls.len() == CANOPY_CELLS && final(chunk)@ == place_all(
                old(chunk)@,
                big_tree_writes(
                    request.local_x as int,
                    0,
                    request.local_z as int,
                    BlockId::OakLog,
                    BlockId::OakLeaves,
                    height_roll,
                    first,
                    second,
                    rolls,
                ),
            ),
        request.flora_type == FloraType::Cactus ==> exists|height_roll: u8|
            final(chunk)@ == place_all(
                old(chunk)@,
                column_writes(
                    request.local_x as int,
                    0,
                    request.local_z as int,
                    cactus_column_height(height_roll),
                    BlockId::Cactus,
                ),
            ),
{
    let local_pos = IVec3::new(request.local_x, 0, request.local_z);
    match request.flora_type {
        FloraType::Flower => {
            let roll = random_ratio(1, 2);
            let flower_type = if roll {
                BlockId::Dandelion
            } else {
                BlockId::Poppy
            };
            chunk.insert(local_pos, BlockData::new(flower_type, BlockDirection::Front));
            assert(chunk@ == old(chunk)@.insert(local_pos, placed(flower_for(roll))));
        },
        FloraType::TallGrass => {
            chunk.insert(local_pos, BlockData::new(BlockId::TallGrass, BlockDirection::Front));
        },
        FloraType::Tree => {
            generate_tree(
                chunk,
                request.local_x,
                0,
                request.local_z,
                BlockId::OakLog,
                BlockId::OakLeaves,
            );
        },
        FloraType::BigTree => {
            generate_big_tree(
                chunk,
                request.local_x,
                0,
                request.local_z,
                BlockId::OakLog,
                BlockId::OakLeaves,
            );
        },
        FloraType::Cactus => {
            generate_cactus(chunk, request.local_x, 0, request.local_z, BlockId::Cactus);
        },
    }
}

/// Applying writes only ever sets positions inside the chunk: a position
/// outside it, or one that no write names, keeps what it held before.
pub proof fn lemma_place_all_untouched(m: Map<IVec3, BlockData>, w: Seq<(IVec3, BlockId)>, p: IVec3)
    requires
        !in_chunk(p) || forall|i: int| 0 <= i < w.len() ==> w[i].0 != p,
    ensures
        place_all(m, w).dom().contains(p) == m.dom().contains(p),
        place_all(m, w)[p] == m[p],
    decreases w.len(),
{
    if w.len() > 0 {
        let t = w.drop_last();
        assert(!in_chunk(p) || forall|i: int| 0 <= i < t.len() ==> t[i].0 != p) by {
            if in_chunk(p) {
                assert forall|i: int| 0 <= i < t.len() implies t[i].0 != p by {
                    assert(t[i] == w[i]);
                }
            }
        }
        lemma_place_all_untouched(m, t, p);
        if in_chunk(p) {
            assert(w[w.len() - 1].0 != p);
        }
    }
}

/// Of several writes to one position inside the chunk, the last one wins.
pub proof fn lemma_place_all_last_write(
    m: Map<IVec3, BlockData>,
    w: Seq<(IVec3, BlockId)>,
    i: int,
)
    requires
        0 <= i < w.len(),
        in_chunk(w[i].0),
        forall|j: int| i < j < w.len() ==> w[j].0 != w[i].0,
    ensures
        place_all(m, w).dom().contains(w[i].0),
        place_all(m, w)[w[i].0] == placed(w[i].1),
    decreases w.len(),
{
    if i < w.len() - 1 {
        let t = w.drop_last();
        assert(t[i] == w[i]);
        assert forall|j: int| i < j < t.len() implies t[j].0 != t[i].0 by {
            assert(t[j] == w[j]);
        }
        lemma_place_all_last_write(m, t, i);
        assert(w[w.len() - 1].0 != w[i].0);
    }
}

/// Every leaf of a canopy lies in one of its three layers.
proof fn lemma_canopy_heights(x: int, y0: int, z: int, b: BlockId, rolls: Seq<bool>, n: int)
    requires
        0 <= n <= CANOPY_CELLS,
        i32::MIN <= y0,
        y0 + 2 <= i32::MAX,
    ensures
        forall|i: int|
            0 <= i < canopy_writes(x, y0, z, b, rolls, n).len() ==> y0 <= (
            #[trigger] canopy_writes(x, y0, z, b, rolls, n)[i]).0.y <= y0 + 2,
    decreases n,
{
    if n > 0 {
        let k = n - 1;
        lemma_canopy_heights(x, y0, z, b, rolls, k);
        let prev = canopy_writes(x, y0, z, b, rolls, k);
        assert(0 <= cell_layer(k) <= 2);
        if canopy_selected(cell_layer(k), cell_dx(k), cell_dz(k), rolls[k]) {
            assert forall|i: int|
                0 <= i < canopy_writes(x, y0, z, b, rolls, n).len() implies y0 <= (
                #[trigger] canopy_writes(x, y0, z, b, rolls, n)[i]).0.y <= y0 + 2 by {
                if i < prev.len() {
                    assert(canopy_writes(x, y0, z, b, rolls, n)[i] == prev[i]);
                }
            }
        }
    }
}

/// A tree's trunk is wood all the way up: each of its blocks that lies
/// inside the chunk holds the trunk's kind once the tree is placed (the
/// canopy starts at the trunk's top block, which is written again last).
pub proof fn lemma_tree_trunk_is_wood(
    m: Map<IVec3, BlockData>,
    x: i32,
    y: i32,
    z: i32,
    trunk: BlockId,
    leaves: BlockId,
    height_roll: u8,
    rolls: Seq<bool>,
    dy: int,
)
    requires
        generator_origin_ok(x, y, z),
        0 <= dy < tree_height(height_roll),
        in_chunk(at(x as int, y + dy, z as int)),
    ensures
        place_all(m, tree_writes(x as int, y as int, z as int, trunk, leaves, height_roll, rolls))[at(
            x as int,
            y + dy,
            z as int,
        )] == placed(trunk),
{
    let h = tree_height(height_roll);
    let w = tree_writes(x as int, y as int, z as int, trunk, leaves, height_roll, rolls);
    let col = column_writes(x as int, y as int, z as int, h, trunk);
    let can = canopy_writes(x as int, y as int + h - 1, z as int, leaves, rolls, CANOPY_CELLS as int);
    let p = at(x as int, y + dy, z as int);
    if dy == h - 1 {
        lemma_place_all_last_write(m, w, w.len() - 1);
    } else {
        lemma_canopy_heights(x as int, y as int + h - 1, z as int, leaves, rolls, CANOPY_CELLS as int);
        assert(w[dy] == col[dy]);
        assert forall|j: int| dy < j < w.len() implies w[j].0 != w[dy].0 by {
            if j < h {
                assert(w[j] == col[j]);
            } else if j < h + can.len() {
                assert(w[j] == can[j - h]);
            }
        }
        lemma_place_all_last_write(m, w, dy);
    }
}

/// Of several writes to one position inside the chunk, the position ends up
/// with kind `b` when write `i` sets it to `b` and every later write to it
/// does too.
proof fn lemma_place_all_final_kind(m: Map<IVec3, BlockData>, w: Seq<(IVec3, BlockId)>, i: int, b: BlockId)
    requires
        0 <= i < w.len(),
        in_chunk(w[i].0),
        w[i].1 == b,
        forall|j: int| i < j < w.len() && w[j].0 == w[i].0 ==> w[j].1 == b,
    ensures
        place_all(m, w).dom().contains(w[i].0),
        place_all(m, w)[w[i].0] == placed(b),
    decreases w.len(),
{
    if i < w.len() - 1 {
        let t = w.drop_last();
        assert(t[i] == w[i]);
        assert forall|j: int| i < j < t.len() && t[j].0 == t[i].0 implies t[j].1 == b by {
            assert(t[j] == w[j]);
        }
        lemma_place_all_final_kind(m, t, i, b);
    }
}

/// A big tree's crown never covers the trunk's column.
proof fn lemma_crown_off_center(x: int, y0: int, z: int, b: BlockId, n: int)
    requires
        0 <= n <= CROWN_CELLS,
        i32::MIN + 2 <= x <= i32::MAX - 2,
        i32::MIN + 2 <= z <= i32::MAX - 2,
    ensures
        forall|i: int|
            0 <= i < crown_writes(x, y0, z, b, n).len() ==> (#[trigger] crown_writes(
                x,
                y0,
                z,
                b,
                n,
            )[i]).0.x != x || crown_writes(x, y0, z, b, n)[i].0.z != z,
    decreases n,
{
    if n > 0 {
        let k = n - 1;
        lemma_crown_off_center(x, y0, z, b, k);
        let prev = crown_writes(x, y0, z, b, k);
        let q = crown_writes(x, y0, z, b, n);
        assert(-2 <= cell_dx(k) <= 2 && -2 <= cell_dz(k) <= 2);
        assert forall|i: int| 0 <= i < q.len() implies (#[trigger] q[i]).0.x != x || q[i].0.z
            != z by {
            if i < prev.len() {
                assert(q[i] == prev[i]);
            }
        }
    }
}

/// A big tree's trunk is `4 + height_roll % 3` blocks of wood: once the tree
/// is placed, each trunk block that lies inside the chunk holds the trunk's
/// kind, and the block right above the trunk holds leaves.
pub proof fn lemma_big_tree_trunk(
    m: Map<IVec3, BlockData>,
    x: i32,
    y: i32,
    z: i32,
    trunk: BlockId,
    leaves: BlockId,
    height_roll: u8,
    first: BranchRolls,
    second: BranchRolls,
    rolls: Seq<bool>,
    dy: int,
)
    requires
        generator_origin_ok(x, y, z),
        0 <= dy <= 4 + height_roll % 3,
        in_chunk(at(x as int, y + dy, z as int)),
    ensures
        place_all(
            m,
            big_tree_writes(
                x as int,
                y as int,
                z as int,
                trunk,
                leaves,
                height_roll,
                first,
                second,
                rolls,
            ),
        )[at(x as int, y + dy, z as int)] == placed(
            if dy < 4 + height_roll % 3 {
                trunk
            } else {
                leaves
            },
        ),
{
    let (xi, yi, zi) = (x as int, y as int, z as int);
    let h = big_tree_height(height_roll);
    let ls = yi + h - 2;
    let w = big_tree_writes(xi, yi, zi, trunk, leaves, height_roll, first, second, rolls);
    let pre = branch_writes(xi, zi, ls, first, trunk, leaves) + branch_writes(
        xi,
        zi,
        ls,
        second,
        trunk,
        leaves,
    );
    let col = column_writes(xi, yi, zi, h, trunk);
    let crown = crown_writes(xi, ls, zi, leaves, CROWN_CELLS as int);
    let top: Seq<(IVec3, BlockId)> = seq![(at(xi, ls + 2, zi), leaves)];
    let can = canopy_writes(xi, ls + 2, zi, leaves, rolls, CANOPY_CELLS as int);
    let w1 = pre + col;
    let w2 = w1 + crown;
    let w3 = w2 + top;
    assert(w == w3 + can);
    let o = pre.len() as int;
    let c = crown.len() as int;
    lemma_crown_off_center(xi, ls, zi, leaves, CROWN_CELLS as int);
    lemma_canopy_heights(xi, ls + 2, zi, leaves, rolls, CANOPY_CELLS as int);
    lemma_canopy_kinds(xi, ls + 2, zi, leaves, rolls, CANOPY_CELLS as int);
    let p = at(xi, yi + dy, zi);
    if dy < h {
        let i = o + dy;
        assert(w[i] == col[dy]);
        assert forall|j: int| i < j < w.len() && w[j].0 == w[i].0 implies w[j].1 == trunk by {
            if j < o + h {
                assert(w[j] == col[j - o]);
            } else if j < o + h + c {
                assert(w[j] == crown[j - o - h]);
            } else if j == o + h + c {
                assert(w[j] == top[0]);
            } else {
                assert(w[j] == can[j - o - h - c - 1]);
            }
        }
        lemma_place_all_final_kind(m, w, i, trunk);
    } else {
        let i = o + h + c;
        assert(w[i] == top[0]);
        assert forall|j: int| i < j < w.len() && w[j].0 == w[i].0 implies w[j].1 == leaves by {
            assert(w[j] == can[j - i - 1]);
        }
        lemma_place_all_final_kind(m, w, i, leaves);
    }
}

/// Height up to which columns are filled with water.
pub const SEA_LEVEL: i32 = 62;

/// Number of columns of a chunk (16 by 16).
pub const CHUNK_COLUMNS: usize = 256;

/// What shapes one column of a generated chunk: its terrain height, the
/// blocks of its biome, the biome's chances of flora in thousandths, whether
/// it is a forest (where some trees grow big), and the biome itself, which
/// requests for the chunk above carry along.
#[derive(Clone, Copy, Debug, PartialEq, Eq, Structural)]
pub struct ColumnPlan {
    pub terrain_height: i32,
    pub surface_block: BlockId,
    pub sub_surface_block: BlockId,
    pub flower: u32,
    pub tall_grass: u32,
    pub tree: u32,
    pub cactus: u32,
    pub forest: bool,
    pub biome_type: BiomeId,
}

/// The block at height `y` of a column: bedrock at 0, stone up to four
/// blocks below the terrain height, the sub-surface block up to it, the
/// surface block at it, and water above it.
pub open spec fn column_block(y: int, plan: ColumnPlan) -> BlockId {
    let h = plan.terrain_height as int;
    if y == 0 {
        BlockId::Bedrock
    } else if y < h - 4 {
        BlockId::Stone
    } else if y < h {
        plan.sub_surface_block
    } else if y == h {
        plan.surface_block
    } else {
        BlockId::Water
    }
}

/// Whether height `y` of a column is filled: up to the terrain height or
/// sea level, whichever is higher.
pub open spec fn column_filled(y: int, plan: ColumnPlan) -> bool {
    !(y > plan.terrain_height && y > SEA_LEVEL)
}

/// Blocks that flora consists of.
pub open spec fn flora_kind(b: BlockId) -> bool {
    b == BlockId::OakLog || b == BlockId::OakLeaves || b == BlockId::Dandelion || b
        == BlockId::Poppy || b == BlockId::TallGrass || b == BlockId::Cactus
}

/// The plan of the column at local `(x, z)`.
pub open spec fn plan_of(columns: Seq<ColumnPlan>, x: int, z: int) -> ColumnPlan {
    columns[x * 16 + z]
}

/// Whether local position `k` of the chunk at chunk height `cy` is filled
/// with terrain.
pub open spec fn terrain_cell(cy: int, columns: Seq<ColumnPlan>, k: IVec3) -> bool {
    in_chunk(k) && column_filled(16 * cy + k.y, plan_of(columns, k.x as int, k.z as int))
}

/// The terrain block at local position `k` of the chunk at chunk height `cy`.
pub open spec fn terrain_block(cy: int, columns: Seq<ColumnPlan>, k: IVec3) -> BlockId {
    column_block(16 * cy + k.y, plan_of(columns, k.x as int, k.z as int))
}

/// A column that can grow no flora: no chance of flower, grass or tree
/// unless no grass is among its blocks, and no chance of cactus unless no
/// sand is.
pub open spec fn column_quiet(plan: ColumnPlan) -> bool {
    let grass = plan.surface_block == BlockId::Grass || plan.sub_surface_block == BlockId::Grass;
    let sand = plan.surface_block == BlockId::Sand || plan.sub_surface_block == BlockId::Sand;
    &&& (plan.flower == 0 && plan.tall_grass == 0 && plan.tree == 0) || !grass
    &&& plan.cactus == 0 || !sand
}

/// A chunk that can grow no flora: no pending requests and only quiet columns.
pub open spec fn chunk_quiet(columns: Seq<ColumnPlan>, pending: Seq<FloraRequest>) -> bool {
    pending.len() == 0 && forall|i: int| 0 <= i < columns.len() ==> column_quiet(#[trigger] columns[i])
}

/// A request left for the chunk above is sound: it names a column of the
/// chunk whose top cell is filled and whose chance for that flora is not
/// zero; flowers, grass and trees stand on grass, trees away from the
/// chunk's sides, big trees in forests only, and cacti on sand.
pub open spec fn request_ok(q: FloraRequest, cy: int, columns: Seq<ColumnPlan>) -> bool {
    let x = q.local_x as int;
    let z = q.local_z as int;
    let plan = plan_of(columns, x, z);
    let top = column_block(16 * cy + 15, plan);
    &&& 0 <= x < 16 && 0 <= z < 16
    &&& q.biome_type == plan.biome_type
    &&& column_filled(16 * cy + 15, plan)
    &&& match q.flora_type {
        FloraType::Flower => plan.flower > 0 && top == BlockId::Grass,
        FloraType::TallGrass => plan.tall_grass > 0 && top == BlockId::Grass,
        FloraType::Tree => plan.tree > 0 && top == BlockId::Grass && 1 <= x <= 14 && 1 <= z <= 14,
        FloraType::BigTree => plan.tree > 0 && top == BlockId::Grass && 1 <= x <= 14 && 1 <= z
            <= 14 && plan.forest,
        FloraType::Cactus => plan.cactus > 0 && top == BlockId::Sand,
    }
}

/// Cell `k` comes before step `d` of column `c` in generation order.
pub open spec fn done_before(c: int, d: int, k: IVec3) -> bool {
    k.x * 16 + k.z < c || (k.x * 16 + k.z == c && k.y < d)
}

/// What holds of a chunk under generation up to step `d` of column `c`:
/// every block lies in the chunk, faces front with no breaking progress,
/// and is flora or the terrain of an already filled cell; every filled cell
/// holds a block; and a quiet chunk holds exactly its filled cells.
pub open spec fn generation_inv(
    m: Map<IVec3, BlockData>,
    cy: int,
    columns: Seq<ColumnPlan>,
    c: int,
    d: int,
    quiet: bool,
) -> bool {
    &&& forall|k: IVec3|
        #![trigger m.dom().contains(k)]
        m.dom().contains(k) ==> in_chunk(k) && m[k].direction == BlockDirection::Front
            && m[k].breaking_progress == 0 && (flora_kind(m[k].id) || (done_before(c, d, k)
            && terrain_cell(cy, columns, k) && m[k].id == terrain_block(cy, columns, k)))
    &&& forall|k: IVec3|
        #![trigger m.dom().contains(k)]
        terrain_cell(cy, columns, k) && done_before(c, d, k) ==> m.dom().contains(k)
    &&& quiet ==> forall|k: IVec3|
        #![trigger m.dom().contains(k)]
        m.dom().contains(k) ==> done_before(c, d, k) && terrain_cell(cy, columns, k) && m[k].id
            == terrain_block(cy, columns, k)
    &&& forall|k: IVec3|
        #![trigger m.dom().contains(k)]
        m.dom().contains(k) && k.y == 0 && done_before(c, d, k) && terrain_cell(cy, columns, k)
            ==> m[k].id == terrain_block(cy, columns, k)
}

proof fn lemma_inv_insert_flora(
    m: Map<IVec3, BlockData>,
    cy: int,
    columns: Seq<ColumnPlan>,
    c: int,
    d: int,
    k: IVec3,
    b: BlockId,
)
    requires
        generation_inv(m, cy, columns, c, d, false),
        in_chunk(k),
        flora_kind(b),
        k.y >= 1 || (c == 0 && d == 0),
    ensures
        generation_inv(m.insert(k, placed(b)), cy, columns, c, d, false),
{
    let n = m.insert(k, placed(b));
    assert forall|j: IVec3| #![trigger n.dom().contains(j)]
        terrain_cell(cy, columns, j) && done_before(c, d, j) implies n.dom().contains(j) by {
        assert(m.dom().contains(j));
    }
    assert forall|j: IVec3| #![trigger n.dom().contains(j)]
        n.dom().contains(j) implies in_chunk(j) && n[j].direction == BlockDirection::Front
            && n[j].breaking_progress == 0 && (flora_kind(n[j].id) || (done_before(c, d, j)
            && terrain_cell(cy, columns, j) && n[j].id == terrain_block(cy, columns, j))) by {
        if j != k {
            assert(m.dom().contains(j));
        }
    }
    assert forall|j: IVec3| #![trigger n.dom().contains(j)]
        n.dom().contains(j) && j.y == 0 && done_before(c, d, j) && terrain_cell(cy, columns, j)
            implies n[j].id == terrain_block(cy, columns, j) by {
        if j != k {
            assert(m.dom().contains(j));
        }
    }
}

proof fn lemma_inv_place_all(
    m: Map<IVec3, BlockData>,
    w: Seq<(IVec3, BlockId)>,
    cy: int,
    columns: Seq<ColumnPlan>,
    c: int,
    d: int,
)
    requires
        generation_inv(m, cy, columns, c, d, false),
        forall|i: int| 0 <= i < w.len() ==> flora_kind(#[trigger] w[i].1),
        (c == 0 && d == 0) || writes_from(w, 1),
    ensures
        generation_inv(place_all(m, w), cy, columns, c, d, false),
    decreases w.len(),
{
    if w.len() > 0 {
        let t = w.drop_last();
        assert forall|i: int| 0 <= i < t.len() implies flora_kind(#[trigger] t[i].1) by {
            assert(t[i] == w[i]);
        }
        if !(c == 0 && d == 0) {
            assert forall|i: int| 0 <= i < t.len() implies (#[trigger] t[i]).0.y >= 1 by {
                assert(t[i] == w[i]);
            }
        }
        lemma_inv_place_all(m, t, cy, columns, c, d);
        assert(flora_kind(w[w.len() - 1].1));
        if in_chunk(w.last().0) {
            lemma_inv_insert_flora(place_all(m, t), cy, columns, c, d, w.last().0, w.last().1);
        }
    }
}

/// Every write is at height `lo` or above.
pub open spec fn writes_from(w: Seq<(IVec3, BlockId)>, lo: int) -> bool {
    forall|i: int| 0 <= i < w.len() ==> (#[trigger] w[i]).0.y >= lo
}

/// Every write is of kind `a` or `b`.
pub open spec fn writes_of(w: Seq<(IVec3, BlockId)>, a: BlockId, b: BlockId) -> bool {
    forall|i: int| 0 <= i < w.len() ==> (#[trigger] w[i].1 == a || w[i].1 == b)
}

proof fn lemma_canopy_kinds(x: int, y0: int, z: int, b: BlockId, rolls: Seq<bool>, n: int)
    ensures
        writes_of(canopy_writes(x, y0, z, b, rolls, n), b, b),
    decreases n,
{
    if n > 0 {
        lemma_canopy_kinds(x, y0, z, b, rolls, n - 1);
        let p = canopy_writes(x, y0, z, b, rolls, n - 1);
        let q = canopy_writes(x, y0, z, b, rolls, n);
        assert forall|i: int| 0 <= i < q.len() implies (#[trigger] q[i].1 == b || q[i].1 == b) by {
            if i < p.len() {
                assert(q[i] == p[i]);
            }
        }
    }
}

proof fn lemma_crown_kinds(x: int, y0: int, z: int, b: BlockId, n: int)
    ensures
        writes_of(crown_writes(x, y0, z, b, n), b, b),
    decreases n,
{
    if n > 0 {
        lemma_crown_kinds(x, y0, z, b, n - 1);
        let p = crown_writes(x, y0, z, b, n - 1);
        let q = crown_writes(x, y0, z, b, n);
        assert forall|i: int| 0 <= i < q.len() implies (#[trigger] q[i].1 == b || q[i].1 == b) by {
            if i < p.len() {
                assert(q[i] == p[i]);
            }
        }
    }
}

proof fn lemma_branch_kinds(bx: int, by: int, bz: int, n: int, trunk: BlockId, leaves: BlockId)
    ensures
        writes_of(branch_steps(bx, by, bz, n, trunk, leaves), trunk, leaves),
    decreases n,
{
    if n > 0 {
        lemma_branch_kinds(bx, by, bz, n - 1, trunk, leaves);
        let p = branch_steps(bx, by, bz, n - 1, trunk, leaves);
        let s = branch_step(bx, by, bz, n - 1, trunk, leaves);
        let q = branch_steps(bx, by, bz, n, trunk, leaves);
        assert forall|i: int| 0 <= i < q.len() implies (#[trigger] q[i].1 == trunk || q[i].1
            == leaves) by {
            if i < p.len() {
                assert(q[i] == p[i]);
            } else {
                assert(q[i] == s[i - p.len()]);
            }
        }
    }
}

proof fn lemma_concat_kinds(w1: Seq<(IVec3, BlockId)>, w2: Seq<(IVec3, BlockId)>, a: BlockId, b: BlockId)
    requires
        writes_of(w1, a, b),
        writes_of(w2, a, b),
    ensures
        writes_of(w1 + w2, a, b),
{
    let w = w1 + w2;
    assert forall|i: int| 0 <= i < w.len() implies (#[trigger] w[i].1 == a || w[i].1 == b) by {
        if i < w1.len() {
            assert(w[i] == w1[i]);
        } else {
            assert(w[i] == w2[i - w1.len()]);
        }
    }
}

proof fn lemma_widen_kinds(w: Seq<(IVec3, BlockId)>, a: BlockId, b: BlockId, c: BlockId, e: BlockId)
    requires
        writes_of(w, a, b),
        (a == c || a == e) && (b == c || b == e),
    ensures
        writes_of(w, c, e),
{
    assert forall|i: int| 0 <= i < w.len() implies (#[trigger] w[i].1 == c || w[i].1 == e) by {
        assert(w[i].1 == a || w[i].1 == b);
    }
}

proof fn lemma_flora_of_oak(w: Seq<(IVec3, BlockId)>)
    requires
        writes_of(w, BlockId::OakLog, BlockId::OakLeaves),
    ensures
        forall|i: int| 0 <= i < w.len() ==> flora_kind(#[trigger] w[i].1),
{
    assert forall|i: int| 0 <= i < w.len() implies flora_kind(#[trigger] w[i].1) by {
        assert(w[i].1 == BlockId::OakLog || w[i].1 == BlockId::OakLeaves);
    }
}

proof fn lemma_tree_kinds(x: int, y: int, z: int, height_roll: u8, rolls: Seq<bool>)
    ensures
        forall|i: int|
            0 <= i < tree_writes(x, y, z, BlockId::OakLog, BlockId::OakLeaves, height_roll, rolls).len()
                ==> flora_kind(
                #[trigger] tree_writes(
                    x,
                    y,
                    z,
                    BlockId::OakLog,
                    BlockId::OakLeaves,
                    height_roll,
                    rolls,
                )[i].1,
            ),
{
    let (t, l) = (BlockId::OakLog, BlockId::OakLeaves);
    let h = tree_height(height_roll);
    let col = column_writes(x, y, z, h, t);
    assert(writes_of(col, t, t));
    lemma_widen_kinds(col, t, t, t, l);
    lemma_canopy_kinds(x, y + h - 1, z, l, rolls, CANOPY_CELLS as int);
    lemma_widen_kinds(canopy_writes(x, y + h - 1, z, l, rolls, CANOPY_CELLS as int), l, l, t, l);
    let top: Seq<(IVec3, BlockId)> = seq![(at(x, y + h - 1, z), t)];
    assert(writes_of(top, t, l));
    lemma_concat_kinds(col, canopy_writes(x, y + h - 1, z, l, rolls, CANOPY_CELLS as int), t, l);
    lemma_concat_kinds(col + canopy_writes(x, y + h - 1, z, l, rolls, CANOPY_CELLS as int), top, t, l);
    lemma_flora_of_oak(tree_writes(x, y, z, t, l, height_roll, rolls));
}

proof fn lemma_big_tree_kinds(
    x: int,
    y: int,
    z: int,
    height_roll: u8,
    first: BranchRolls,
    second: BranchRolls,
    rolls: Seq<bool>,
)
    ensures
        forall|i: int|
            0 <= i < big_tree_writes(
                x,
                y,
                z,
                BlockId::OakLog,
                BlockId::OakLeaves,
                height_roll,
                first,
                second,
                rolls,
            ).len() ==> flora_kind(
                #[trigger] big_tree_writes(
                    x,
                    y,
                    z,
                    BlockId::OakLog,
                    BlockId::OakLeaves,
                    height_roll,
                    first,
                    second,
                    rolls,
                )[i].1,
            ),
{
    let (t, l) = (BlockId::OakLog, BlockId::OakLeaves);
    let h = big_tree_height(height_roll);
    let ls = y + h - 2;
    let b1 = branch_writes(x, z, ls, first, t, l);
    let b2 = branch_writes(x, z, ls, second, t, l);
    let n1 = branch_length(first);
    let n2 = branch_length(second);
    let bx1 = x + signed_rem2(first.x_roll);
    let bz1 = z + signed_rem2(first.z_roll);
    let bx2 = x + signed_rem2(second.x_roll);
    let bz2 = z + signed_rem2(second.z_roll);
    lemma_branch_kinds(bx1, branch_level(ls, first), bz1, n1, t, l);
    lemma_branch_kinds(bx2, branch_level(ls, second), bz2, n2, t, l);
    let tip1: Seq<(IVec3, BlockId)> = seq![(at(bx1 + n1, branch_level(ls, first), bz1), l)];
    let tip2: Seq<(IVec3, BlockId)> = seq![(at(bx2 + n2, branch_level(ls, second), bz2), l)];
    assert(writes_of(tip1, t, l));
    assert(writes_of(tip2, t, l));
    lemma_concat_kinds(branch_steps(bx1, branch_level(ls, first), bz1, n1, t, l), tip1, t, l);
    lemma_concat_kinds(branch_steps(bx2, branch_level(ls, second), bz2, n2, t, l), tip2, t, l);
    assert(b1 =~= branch_steps(bx1, branch_level(ls, first), bz1, n1, t, l) + tip1);
    assert(b2 =~= branch_steps(bx2, branch_level(ls, second), bz2, n2, t, l) + tip2);
    let col = column_writes(x, y, z, h, t);
    assert(writes_of(col, t, t));
    lemma_widen_kinds(col, t, t, t, l);
    lemma_crown_kinds(x, ls, z, l, CROWN_CELLS as int);
    lemma_widen_kinds(crown_writes(x, ls, z, l, CROWN_CELLS as int), l, l, t, l);
    let top: Seq<(IVec3, BlockId)> = seq![(at(x, ls + 2, z), l)];
    assert(writes_of(top, t, l));
    let can = canopy_writes(x, ls + 2, z, l, rolls, CANOPY_CELLS as int);
    lemma_canopy_kinds(x, ls + 2, z, l, rolls, CANOPY_CELLS as int);
    lemma_widen_kinds(can, l, l, t, l);
    lemma_concat_kinds(b1, b2, t, l);
    lemma_concat_kinds(b1 + b2, col, t, l);
    lemma_concat_kinds(b1 + b2 + col, crown_writes(x, ls, z, l, CROWN_CELLS as int), t, l);
    lemma_concat_kinds(b1 + b2 + col + crown_writes(x, ls, z, l, CROWN_CELLS as int), top, t, l);
    lemma_concat_kinds(
        b1 + b2 + col + crown_writes(x, ls, z, l, CROWN_CELLS as int) + top,
        can,
        t,
        l,
    );
    lemma_flora_of_oak(big_tree_writes(x, y, z, t, l, height_roll, first, second, rolls));
}

proof fn lemma_cactus_kinds(x: int, y: int, z: int, n: int)
    ensures
        forall|i: int|
            0 <= i < column_writes(x, y, z, n, BlockId::Cactus).len() ==> flora_kind(
                #[trigger] column_writes(x, y, z, n, BlockId::Cactus)[i].1,
            ),
{
}

proof fn lemma_one_grass(v: Seq<BlockId>, b: BlockId, g: BlockId)
    requires
        v == seq![g],
        v.contains(b),
    ensures
        b == g,
{
    let i = choose|i: int| 0 <= i < v.len() && v[i] == b;
    assert(i == 0);
}

proof fn lemma_from_concat(w1: Seq<(IVec3, BlockId)>, w2: Seq<(IVec3, BlockId)>, lo: int)
    requires
        writes_from(w1, lo),
        writes_from(w2, lo),
    ensures
        writes_from(w1 + w2, lo),
{
    let w = w1 + w2;
    assert forall|i: int| 0 <= i < w.len() implies (#[trigger] w[i]).0.y >= lo by {
        if i < w1.len() {
            assert(w[i] == w1[i]);
        } else {
            assert(w[i] == w2[i - w1.len()]);
        }
    }
}

proof fn lemma_from_weaken(w: Seq<(IVec3, BlockId)>, lo: int, lo2: int)
    requires
        writes_from(w, lo),
        lo2 <= lo,
    ensures
        writes_from(w, lo2),
{
    assert forall|i: int| 0 <= i < w.len() implies (#[trigger] w[i]).0.y >= lo2 by {
        assert(w[i].0.y >= lo);
    }
}

proof fn lemma_column_from(x: int, y: int, z: int, n: int, b: BlockId)
    requires
        0 <= n,
        i32::MIN <= y,
        y + n <= i32::MAX,
    ensures
        writes_from(column_writes(x, y, z, n, b), y),
{
    let w = column_writes(x, y, z, n, b);
    assert forall|i: int| 0 <= i < w.len() implies (#[trigger] w[i]).0.y >= y by {
        assert(w[i] == (at(x, y + i, z), b));
    }
}

proof fn lemma_crown_heights(x: int, y0: int, z: int, b: BlockId, n: int)
    requires
        0 <= n <= CROWN_CELLS,
        i32::MIN <= y0,
        y0 + 1 <= i32::MAX,
    ensures
        writes_from(crown_writes(x, y0, z, b, n), y0),
    decreases n,
{
    if n > 0 {
        let k = n - 1;
        lemma_crown_heights(x, y0, z, b, k);
        let prev = crown_writes(x, y0, z, b, k);
        let q = crown_writes(x, y0, z, b, n);
        assert(0 <= cell_layer(k) <= 1);
        assert forall|i: int| 0 <= i < q.len() implies (#[trigger] q[i]).0.y >= y0 by {
            if i < prev.len() {
                assert(q[i] == prev[i]);
            }
        }
    }
}

proof fn lemma_branch_heights(bx: int, by: int, bz: int, n: int, t: BlockId, l: BlockId)
    requires
        i32::MIN <= by,
        by + 1 <= i32::MAX,
    ensures
        writes_from(branch_steps(bx, by, bz, n, t, l), by),
    decreases n,
{
    if n > 0 {
        lemma_branch_heights(bx, by, bz, n - 1, t, l);
        let p = branch_steps(bx, by, bz, n - 1, t, l);
        let st = branch_step(bx, by, bz, n - 1, t, l);
        let q = branch_steps(bx, by, bz, n, t, l);
        assert forall|i: int| 0 <= i < q.len() implies (#[trigger] q[i]).0.y >= by by {
            if i < p.len() {
                assert(q[i] == p[i]);
            } else {
                assert(q[i] == st[i - p.len()]);
            }
        }
    }
}

proof fn lemma_tree_from(x: int, y: int, z: int, t: BlockId, l: BlockId, height_roll: u8, rolls: Seq<bool>)
    requires
        1 <= y <= 100,
    ensures
        writes_from(tree_writes(x, y, z, t, l, height_roll, rolls), 1),
{
    let h = tree_height(height_roll);
    let col = column_writes(x, y, z, h, t);
    lemma_column_from(x, y, z, h, t);
    lemma_from_weaken(col, y, 1);
    let can = canopy_writes(x, y + h - 1, z, l, rolls, CANOPY_CELLS as int);
    lemma_canopy_heights(x, y + h - 1, z, l, rolls, CANOPY_CELLS as int);
    assert(writes_from(can, 1)) by {
        assert forall|i: int| 0 <= i < can.len() implies (#[trigger] can[i]).0.y >= 1 by {
            assert(y + h - 1 <= can[i].0.y);
        }
    }
    let top: Seq<(IVec3, BlockId)> = seq![(at(x, y + h - 1, z), t)];
    assert(writes_from(top, 1)) by {
        assert(top[0].0.y == y + h - 1);
    }
    lemma_from_concat(col, can, 1);
    lemma_from_concat(col + can, top, 1);
}

proof fn lemma_big_tree_from(
    x: int,
    y: int,
    z: int,
    t: BlockId,
    l: BlockId,
    height_roll: u8,
    first: BranchRolls,
    second: BranchRolls,
    rolls: Seq<bool>,
)
    requires
        1 <= y <= 100,
    ensures
        writes_from(big_tree_writes(x, y, z, t, l, height_roll, first, second, rolls), 1),
{
    let h = big_tree_height(height_roll);
    let ls = y + h - 2;
    let by1 = branch_level(ls, first);
    let by2 = branch_level(ls, second);
    let bx1 = x + signed_rem2(first.x_roll);
    let bz1 = z + signed_rem2(first.z_roll);
    let bx2 = x + signed_rem2(second.x_roll);
    let bz2 = z + signed_rem2(second.z_roll);
    let n1 = branch_length(first);
    let n2 = branch_length(second);
    lemma_branch_heights(bx1, by1, bz1, n1, t, l);
    lemma_branch_heights(bx2, by2, bz2, n2, t, l);
    let tip1: Seq<(IVec3, BlockId)> = seq![(at(bx1 + n1, by1, bz1), l)];
    let tip2: Seq<(IVec3, BlockId)> = seq![(at(bx2 + n2, by2, bz2), l)];
    assert(writes_from(tip1, by1)) by {
        assert(tip1[0].0.y == by1);
    }
    assert(writes_from(tip2, by2)) by {
        assert(tip2[0].0.y == by2);
    }
    let b1 = branch_steps(bx1, by1, bz1, n1, t, l) + tip1;
    let b2 = branch_steps(bx2, by2, bz2, n2, t, l) + tip2;
    lemma_from_concat(branch_steps(bx1, by1, bz1, n1, t, l), tip1, by1);
    lemma_from_concat(branch_steps(bx2, by2, bz2, n2, t, l), tip2, by2);
    lemma_from_weaken(b1, by1, 1);
    lemma_from_weaken(b2, by2, 1);
    assert(b1 =~= branch_writes(x, z, ls, first, t, l));
    assert(b2 =~= branch_writes(x, z, ls, second, t, l));
    let col = column_writes(x, y, z, h, t);
    lemma_column_from(x, y, z, h, t);
    lemma_from_weaken(col, y, 1);
    let crown = crown_writes(x, ls, z, l, CROWN_CELLS as int);
    lemma_crown_heights(x, ls, z, l, CROWN_CELLS as int);
    lemma_from_weaken(crown, ls, 1);
    let top: Seq<(IVec3, BlockId)> = seq![(at(x, ls + 2, z), l)];
    assert(writes_from(top, 1)) by {
        assert(top[0].0.y == ls + 2);
    }
    let can = canopy_writes(x, ls + 2, z, l, rolls, CANOPY_CELLS as int);
    lemma_canopy_heights(x, ls + 2, z, l, rolls, CANOPY_CELLS as int);
    assert(writes_from(can, 1)) by {
        assert forall|i: int| 0 <= i < can.len() implies (#[trigger] can[i]).0.y >= 1 by {
            assert(ls + 2 <= can[i].0.y);
        }
    }
    lemma_from_concat(b1, b2, 1);
    lemma_from_concat(b1 + b2, col, 1);
    lemma_from_concat(b1 + b2 + col, crown, 1);
    lemma_from_concat(b1 + b2 + col + crown, top, 1);
    lemma_from_concat(b1 + b2 + col + crown + top, can, 1);
}

/// A vector holding one block kind.
fn single_block(b: BlockId) -> (r: Vec<BlockId>)
    ensures
        r@ == seq![b],
{
    let mut v: Vec<BlockId> = Vec::new();
    v.push(b);
    v
}

/// The terrain block at height `y` of a column.
fn column_block_at(y: i32, plan: &ColumnPlan) -> (r: BlockId)
    ensures
        r == column_block(y as int, *plan),
{
    let h = plan.terrain_height as i64;
    let y64 = y as i64;
    if y == 0 {
        BlockId::Bedrock
    } else if y64 < h - 4 {
        BlockId::Stone
    } else if y64 < h {
        plan.sub_surface_block
    } else if y64 == h {
        plan.surface_block
    } else {
        BlockId::Water
    }
}

proof fn lemma_column_index(x: int, z: int, dx: int, dz: int)
    requires
        0 <= z < 16,
        0 <= dz < 16,
        x * 16 + z == dx * 16 + dz,
    ensures
        x == dx,
        z == dz,
{
    assert(x == dx) by (nonlinear_arith)
        requires
            0 <= z < 16,
            0 <= dz < 16,
            x * 16 + z == dx * 16 + dz,
    ;
}

proof fn lemma_inv_fill(
    m: Map<IVec3, BlockData>,
    cy: int,
    columns: Seq<ColumnPlan>,
    dx: int,
    dy: int,
    dz: int,
    quiet: bool,
)
    requires
        0 <= dx < 16,
        0 <= dy < 16,
        0 <= dz < 16,
        generation_inv(m, cy, columns, dx * 16 + dz, dy, quiet),
        column_filled(16 * cy + dy, plan_of(columns, dx, dz)),
    ensures
        generation_inv(
            m.insert(
                IVec3 { x: dx as i32, y: dy as i32, z: dz as i32 },
                placed(column_block(16 * cy + dy, plan_of(columns, dx, dz))),
            ),
            cy,
            columns,
            dx * 16 + dz,
            dy + 1,
            quiet,
        ),
{
    let k = IVec3 { x: dx as i32, y: dy as i32, z: dz as i32 };
    let n = m.insert(k, placed(column_block(16 * cy + dy, plan_of(columns, dx, dz))));
    let c = dx * 16 + dz;
    assert forall|j: IVec3| #![trigger n.dom().contains(j)]
        terrain_cell(cy, columns, j) && done_before(c, dy + 1, j) implies n.dom().contains(j) by {
        if j != k && !done_before(c, dy, j) {
            lemma_column_index(j.x as int, j.z as int, dx, dz);
        }
    }
    assert forall|j: IVec3| #![trigger n.dom().contains(j)]
        n.dom().contains(j) implies in_chunk(j) && n[j].direction == BlockDirection::Front
            && n[j].breaking_progress == 0 && (flora_kind(n[j].id) || (done_before(c, dy + 1, j)
            && terrain_cell(cy, columns, j) && n[j].id == terrain_block(cy, columns, j))) by {
        if j != k {
            assert(m.dom().contains(j));
        }
    }
    if quiet {
        assert forall|j: IVec3| #![trigger n.dom().contains(j)]
            n.dom().contains(j) implies done_before(c, dy + 1, j) && terrain_cell(cy, columns, j)
                && n[j].id == terrain_block(cy, columns, j) by {
            if j != k {
                assert(m.dom().contains(j));
            }
        }
    }
}

proof fn lemma_inv_skip(
    m: Map<IVec3, BlockData>,
    cy: int,
    columns: Seq<ColumnPlan>,
    dx: int,
    dy: int,
    dz: int,
    quiet: bool,
)
    requires
        0 <= dx < 16,
        0 <= dy < 16,
        0 <= dz < 16,
        generation_inv(m, cy, columns, dx * 16 + dz, dy, quiet),
        !column_filled(16 * cy + dy, plan_of(columns, dx, dz)),
    ensures
        generation_inv(m, cy, columns, dx * 16 + dz, dy + 1, quiet),
{
    let c = dx * 16 + dz;
    assert forall|j: IVec3| #![trigger m.dom().contains(j)]
        terrain_cell(cy, columns, j) && done_before(c, dy + 1, j) implies m.dom().contains(j) by {
        if !done_before(c, dy, j) {
            lemma_column_index(j.x as int, j.z as int, dx, dz);
        }
    }
}

proof fn lemma_inv_next_column(
    m: Map<IVec3, BlockData>,
    cy: int,
    columns: Seq<ColumnPlan>,
    c: int,
    quiet: bool,
)
    requires
        generation_inv(m, cy, columns, c, 16, quiet),
    ensures
        generation_inv(m, cy, columns, c + 1, 0, quiet),
{
    assert forall|j: IVec3| #![trigger m.dom().contains(j)]
        terrain_cell(cy, columns, j) && done_before(c + 1, 0, j) implies m.dom().contains(j) by {
        assert(done_before(c, 16, j));
    }
}

/// Number of cells of a chunk (16 columns of 16 by 16).
pub const CHUNK_CELLS: usize = 4096;

/// The rolls that decide the flora of one cell, or of one request: a roll in
/// `0..1000` for each of flower, tall grass, tree and cactus; which flower;
/// a roll for a big tree (one below 10 makes it big); and the rolls of the
/// tree or cactus itself (height, branches, and one canopy bit per cell).
#[derive(Clone, Copy, Debug, PartialEq, Eq, Structural)]
pub struct FloraRolls {
    pub flower: u32,
    pub tall_grass: u32,
    pub tree: u32,
    pub cactus: u32,
    pub dandelion: bool,
    pub big_tree: u32,
    pub height: u8,
    pub first: BranchRolls,
    pub second: BranchRolls,
    pub canopy: u128,
}

/// The canopy rolls held in the low `CANOPY_CELLS` bits of `mask`.
pub open spec fn canopy_of(mask: u128) -> Seq<bool> {
    Seq::new(CANOPY_CELLS as nat, |i: int| (mask >> (i as u128)) & 1u128 == 1u128)
}

/// The request for flora of type `t` at column `(x, z)` of biome `b`.
pub open spec fn request_at(x: i32, z: i32, t: FloraType, b: BiomeId) -> FloraRequest {
    FloraRequest { local_x: x, local_z: z, flora_type: t, biome_type: b }
}

/// The chunk and requests after the flora step of the cell `k` just filled
/// with `block`: flower, tall grass, tree (big when its roll is below 10 in a
/// forest; never on the chunk's sides) or cactus, tried in that order with
/// their rolls; on the chunk's top layer the chosen flora becomes a request,
/// otherwise it grows on the cell above.
pub open spec fn flora_cell_step(
    m: Map<IVec3, BlockData>,
    reqs: Seq<FloraRequest>,
    k: IVec3,
    block: BlockId,
    plan: ColumnPlan,
    r: FloraRolls,
) -> (Map<IVec3, BlockData>, Seq<FloraRequest>) {
    let grass = seq![BlockId::Grass];
    let sand = seq![BlockId::Sand];
    let valid_tree = 1 <= k.x < 15 && 1 <= k.z < 15;
    let big = plan.forest && r.big_tree < 10;
    let (x, y1, z) = (k.x as int, k.y + 1, k.z as int);
    if k.y + 1 >= 16 {
        if flora_roll_spec(plan.flower, block, grass, r.flower) {
            (m, reqs.push(request_at(k.x, k.z, FloraType::Flower, plan.biome_type)))
        } else if flora_roll_spec(plan.tall_grass, block, grass, r.tall_grass) {
            (m, reqs.push(request_at(k.x, k.z, FloraType::TallGrass, plan.biome_type)))
        } else if valid_tree && flora_roll_spec(plan.tree, block, grass, r.tree) {
            (
                m,
                reqs.push(
                    request_at(
                        k.x,
                        k.z,
                        if big {
                            FloraType::BigTree
                        } else {
                            FloraType::Tree
                        },
                        plan.biome_type,
                    ),
                ),
            )
        } else if flora_roll_spec(plan.cactus, block, sand, r.cactus) {
            (m, reqs.push(request_at(k.x, k.z, FloraType::Cactus, plan.biome_type)))
        } else {
            (m, reqs)
        }
    } else {
        if flora_roll_spec(plan.flower, block, grass, r.flower) {
            (m.insert(at(x, y1, z), placed(flower_for(r.dandelion))), reqs)
        } else if flora_roll_spec(plan.tall_grass, block, grass, r.tall_grass) {
            (m.insert(at(x, y1, z), placed(BlockId::TallGrass)), reqs)
        } else if valid_tree && flora_roll_spec(plan.tree, block, grass, r.tree) {
            if big {
                (
                    place_all(
                        m,
                        big_tree_writes(
                            x,
                            y1,
                            z,
                            BlockId::OakLog,
                            BlockId::OakLeaves,
                            r.height,
                            r.first,
                            r.second,
                            canopy_of(r.canopy),
                        ),
                    ),
                    reqs,
                )
            } else {
                (
                    place_all(
                        m,
                        tree_writes(
                            x,
                            y1,
                            z,
                            BlockId::OakLog,
                            BlockId::OakLeaves,
                            r.height,
                            canopy_of(r.canopy),
                        ),
                    ),
                    reqs,
                )
            }
        } else if flora_roll_spec(plan.cactus, block, sand, r.cactus) {
            (
                place_all(
                    m,
                    column_writes(x, y1, z, cactus_column_height(r.height), BlockId::Cactus),
                ),
                reqs,
            )
        } else {
            (m, reqs)
        }
    }
}

/// The chunk after growing a request left by the chunk below at height 0,
/// with the request's rolls: a flower or tall grass set in place, or a tree,
/// big tree (of oak) or cactus grown there.
pub open spec fn request_step(m: Map<IVec3, BlockData>, q: FloraRequest, r: FloraRolls) -> Map<
    IVec3,
    BlockData,
> {
    let (x, z) = (q.local_x as int, q.local_z as int);
    match q.flora_type {
        FloraType::Flower => m.insert(at(x, 0, z), placed(flower_for(r.dandelion))),
        FloraType::TallGrass => m.insert(at(x, 0, z), placed(BlockId::TallGrass)),
        FloraType::Tree => place_all(
            m,
            tree_writes(x, 0, z, BlockId::OakLog, BlockId::OakLeaves, r.height, canopy_of(r.canopy)),
        ),
        FloraType::BigTree => place_all(
            m,
            big_tree_writes(
                x,
                0,
                z,
                BlockId::OakLog,
                BlockId::OakLeaves,
                r.height,
                r.first,
                r.second,
                canopy_of(r.canopy),
            ),
        ),
        FloraType::Cactus => place_all(
            m,
            column_writes(x, 0, z, cactus_column_height(r.height), BlockId::Cactus),
        ),
    }
}

/// Writes that all set kind `b` leave every position either as it was or
/// holding `b`.
proof fn lemma_place_all_only(m: Map<IVec3, BlockData>, w: Seq<(IVec3, BlockId)>, b: BlockId)
    requires
        forall|i: int| 0 <= i < w.len() ==> (#[trigger] w[i]).1 == b,
    ensures
        forall|p: IVec3|
            #[trigger] place_all(m, w).dom().contains(p) ==> (m.dom().contains(p) && place_all(
                m,
                w,
            )[p] == m[p]) || place_all(m, w)[p] == placed(b),
    decreases w.len(),
{
    if w.len() > 0 {
        let t = w.drop_last();
        assert forall|i: int| 0 <= i < t.len() implies (#[trigger] t[i]).1 == b by {
            assert(t[i] == w[i]);
        }
        lemma_place_all_only(m, t, b);
        assert(w[w.len() - 1].1 == b);
    }
}

/// The flora step of a cell on the chunk's sides grows no tree: it changes
/// no block outside the cell's own column, never sets an oak log or oak
/// leaves, and leaves no tree or big tree request for the chunk above.
pub proof fn lemma_no_tree_on_sides(
    m: Map<IVec3, BlockData>,
    reqs: Seq<FloraRequest>,
    k: IVec3,
    block: BlockId,
    plan: ColumnPlan,
    r: FloraRolls,
)
    requires
        in_chunk(k),
        k.x == 0 || k.x == 15 || k.z == 0 || k.z == 15,
    ensures
        ({
            let (g, rq) = flora_cell_step(m, reqs, k, block, plan, r);
            &&& forall|p: IVec3|
                !(p.x == k.x && p.z == k.z) ==> #[trigger] g.dom().contains(p) == m.dom().contains(
                    p,
                ) && g[p] == m[p]
            &&& forall|p: IVec3|
                #[trigger] g.dom().contains(p) && !(m.dom().contains(p) && g[p] == m[p]) ==> g[p].id
                    != BlockId::OakLog && g[p].id != BlockId::OakLeaves
            &&& rq.len() <= reqs.len() + 1
            &&& forall|i: int|
                reqs.len() <= i < rq.len() ==> (#[trigger] rq[i]).flora_type != FloraType::Tree
                    && rq[i].flora_type != FloraType::BigTree
            &&& forall|i: int| 0 <= i < reqs.len() ==> #[trigger] rq[i] == reqs[i]
        }),
{
    let grass = seq![BlockId::Grass];
    let sand = seq![BlockId::Sand];
    let (x, y1, z) = (k.x as int, k.y + 1, k.z as int);
    if k.y + 1 < 16 && !flora_roll_spec(plan.flower, block, grass, r.flower) && !flora_roll_spec(
        plan.tall_grass,
        block,
        grass,
        r.tall_grass,
    ) && flora_roll_spec(plan.cactus, block, sand, r.cactus) {
        let w = column_writes(x, y1, z, cactus_column_height(r.height), BlockId::Cactus);
        assert forall|p: IVec3| !(p.x == k.x && p.z == k.z) implies #[trigger] place_all(
            m,
            w,
        ).dom().contains(p) == m.dom().contains(p) && place_all(m, w)[p] == m[p] by {
            assert forall|i: int| 0 <= i < w.len() implies w[i].0 != p by {
                assert(w[i].0 == at(x, y1 + i, z));
            }
            lemma_place_all_untouched(m, w, p);
        }
        lemma_place_all_only(m, w, BlockId::Cactus);
    }
}

/// Growing a request from the chunk below sets, in the request's column: a
/// dandelion or poppy (by its roll) or tall grass on the bottom cell; a
/// tree's trunk of `3 + height % 3` oak logs; a big tree's trunk of
/// `4 + height % 3` oak logs with leaves right above it; or a cactus of
/// `2 + height % 2` blocks.
pub proof fn lemma_request_growth(m: Map<IVec3, BlockData>, q: FloraRequest, r: FloraRolls, dy: int)
    requires
        0 <= q.local_x < 16,
        0 <= q.local_z < 16,
        0 <= dy < 16,
    ensures
        ({
            let g = request_step(m, q, r);
            let p = at(q.local_x as int, dy, q.local_z as int);
            &&& q.flora_type == FloraType::Flower && dy == 0 ==> g[p] == placed(
                if r.dandelion {
                    BlockId::Dandelion
                } else {
                    BlockId::Poppy
                },
            )
            &&& q.flora_type == FloraType::TallGrass && dy == 0 ==> g[p] == placed(
                BlockId::TallGrass,
            )
            &&& q.flora_type == FloraType::Tree && dy < 3 + r.height % 3 ==> g[p] == placed(
                BlockId::OakLog,
            )
            &&& q.flora_type == FloraType::BigTree && dy <= 4 + r.height % 3 ==> g[p] == placed(
                if dy < 4 + r.height % 3 {
                    BlockId::OakLog
                } else {
                    BlockId::OakLeaves
                },
            )
            &&& q.flora_type == FloraType::Cactus && dy < 2 + r.height % 2 ==> g[p] == placed(
                BlockId::Cactus,
            )
        }),
{
    let (x, z) = (q.local_x, q.local_z);
    let p = at(x as int, dy, z as int);
    assert(in_chunk(p));
    match q.flora_type {
        FloraType::Tree => {
            if dy < 3 + r.height % 3 {
                lemma_tree_trunk_is_wood(
                    m,
                    x,
                    0,
                    z,
                    BlockId::OakLog,
                    BlockId::OakLeaves,
                    r.height,
                    canopy_of(r.canopy),
                    dy,
                );
            }
        },
        FloraType::BigTree => {
            if dy <= 4 + r.height % 3 {
                lemma_big_tree_trunk(
                    m,
                    x,
                    0,
                    z,
                    BlockId::OakLog,
                    BlockId::OakLeaves,
                    r.height,
                    r.first,
                    r.second,
                    canopy_of(r.canopy),
                    dy,
                );
            }
        },
        FloraType::Cactus => {
            let n = cactus_column_height(r.height);
            if dy < n {
                let w = column_writes(x as int, 0, z as int, n, BlockId::Cactus);
                assert(w[dy] == (p, BlockId::Cactus));
                lemma_place_all_final_kind(m, w, dy, BlockId::Cactus);
            }
        },
        _ => {},
    }
}

/// The chunk after growing the first `n` pending requests, in order.
pub open spec fn pending_upto(pending: Seq<FloraRequest>, rolls: Seq<FloraRolls>, n: int) -> Map<
    IVec3,
    BlockData,
>
    decreases n,
{
    if n <= 0 {
        Map::empty()
    } else {
        request_step(pending_upto(pending, rolls, n - 1), pending[n - 1], rolls[n - 1])
    }
}

/// Cell number `n` of a chunk in generation order: column by column
/// (`x`, then `z`), bottom to top within a column.
pub open spec fn chunk_cell(n: int) -> IVec3 {
    IVec3 { x: (n / 256) as i32, y: (n % 16) as i32, z: ((n / 16) % 16) as i32 }
}

/// One generation step, for cell number `n`: when the cell is filled, its
/// terrain block is set and the flora step follows with the cell's rolls.
pub open spec fn generation_step(
    state: (Map<IVec3, BlockData>, Seq<FloraRequest>),
    cy: int,
    columns: Seq<ColumnPlan>,
    n: int,
    r: FloraRolls,
) -> (Map<IVec3, BlockData>, Seq<FloraRequest>) {
    let k = chunk_cell(n);
    let plan = columns[n / 16];
    let y = 16 * cy + k.y;
    if column_filled(y, plan) {
        let block = column_block(y, plan);
        flora_cell_step(state.0.insert(k, placed(block)), state.1, k, block, plan, r)
    } else {
        state
    }
}

/// The chunk and requests after the pending requests and the first `n`
/// generation steps.
pub open spec fn generation_upto(
    cy: int,
    columns: Seq<ColumnPlan>,
    pending: Seq<FloraRequest>,
    pending_rolls: Seq<FloraRolls>,
    rolls: Seq<FloraRolls>,
    n: int,
) -> (Map<IVec3, BlockData>, Seq<FloraRequest>)
    decreases n,
{
    if n <= 0 {
        (pending_upto(pending, pending_rolls, pending.len() as int), seq![])
    } else {
        generation_step(
            generation_upto(cy, columns, pending, pending_rolls, rolls, n - 1),
            cy,
            columns,
            n - 1,
            rolls[n - 1],
        )
    }
}

/// The generated chunk and the requests for the chunk above, for the given
/// rolls of the pending requests and of every cell.
pub open spec fn generation_spec(
    cy: int,
    columns: Seq<ColumnPlan>,
    pending: Seq<FloraRequest>,
    pending_rolls: Seq<FloraRolls>,
    rolls: Seq<FloraRolls>,
) -> (Map<IVec3, BlockData>, Seq<FloraRequest>) {
    generation_upto(cy, columns, pending, pending_rolls, rolls, CHUNK_CELLS as int)
}

/// Rolls as drawn: the four flora rolls below 1000 and the big-tree roll
/// below the cell's tree chance (when that is not zero).
pub open spec fn rolls_drawn(columns: Seq<ColumnPlan>, rolls: Seq<FloraRolls>) -> bool {
    forall|n: int|
        0 <= n < rolls.len() ==> {
            let r = #[trigger] rolls[n];
            &&& r.flower < 1000 && r.tall_grass < 1000 && r.tree < 1000 && r.cactus < 1000
            &&& columns[n / 16].tree > 0 ==> r.big_tree < columns[n / 16].tree
        }
}

/// The canopy rolls held in a mask, one per canopy cell.
fn canopy_rolls(mask: u128) -> (r: Vec<bool>)
    ensures
        r@ == canopy_of(mask),
{
    let mut v: Vec<bool> = Vec::new();
    let mut i: u32 = 0;
    while i < 75
        invariant
            i <= 75,
            v@.len() == i,
            forall|j: int| 0 <= j < i ==> v@[j] == ((mask >> (j as u128)) & 1u128 == 1u128),
        decreases 75 - i,
    {
        v.push((mask >> (i as u128)) & 1u128 == 1u128);
        i += 1;
    }
    assert(v@ =~= canopy_of(mask));
    v
}

/// Grows a request left by the chunk below, with the request's rolls.
fn grow_request_with(
    chunk: &mut BlockMap,
    request: &FloraRequest,
    r: &FloraRolls,
    Ghost(cy): Ghost<int>,
    Ghost(columns): Ghost<Seq<ColumnPlan>>,
)
    requires
        old(chunk).wf(),
        0 <= request.local_x < 16,
        0 <= request.local_z < 16,
        generation_inv(old(chunk)@, cy, columns, 0, 0, false),
    ensures
        final(chunk).wf(),
        final(chunk)@ == request_step(old(chunk)@, *request, *r),
        generation_inv(final(chunk)@, cy, columns, 0, 0, false),
{
    let x = request.local_x;
    let z = request.local_z;
    let p = IVec3::new(x, 0, z);
    match request.flora_type {
        FloraType::Flower => {
            let flower = if r.dandelion {
                BlockId::Dandelion
            } else {
                BlockId::Poppy
            };
            chunk.insert(p, BlockData::new(flower, BlockDirection::Front));
            proof {
                lemma_inv_insert_flora(old(chunk)@, cy, columns, 0, 0, p, flower);
            }
        },
        FloraType::TallGrass => {
            chunk.insert(p, BlockData::new(BlockId::TallGrass, BlockDirection::Front));
            proof {
                lemma_inv_insert_flora(old(chunk)@, cy, columns, 0, 0, p, BlockId::TallGrass);
            }
        },
        FloraType::Tree => {
            let canopy = canopy_rolls(r.canopy);
            let writes = tree_layout(x, 0, z, BlockId::OakLog, BlockId::OakLeaves, r.height, &canopy);
            place_blocks(chunk, &writes);
            proof {
                lemma_tree_kinds(x as int, 0, z as int, r.height, canopy@);
                lemma_inv_place_all(old(chunk)@, writes@, cy, columns, 0, 0);
            }
        },
        FloraType::BigTree => {
            let canopy = canopy_rolls(r.canopy);
            let writes = big_tree_layout(
                x,
                0,
                z,
                BlockId::OakLog,
                BlockId::OakLeaves,
                r.height,
                &r.first,
                &r.second,
                &canopy,
            );
            place_blocks(chunk, &writes);
            proof {
                lemma_big_tree_kinds(x as int, 0, z as int, r.height, r.first, r.second, canopy@);
                lemma_inv_place_all(old(chunk)@, writes@, cy, columns, 0, 0);
            }
        },
        FloraType::Cactus => {
            let writes = cactus_layout(x, 0, z, BlockId::Cactus, r.height);
            place_blocks(chunk, &writes);
            proof {
                lemma_cactus_kinds(x as int, 0, z as int, cactus_column_height(r.height));
                lemma_inv_place_all(old(chunk)@, writes@, cy, columns, 0, 0);
            }
        },
    }
}

/// Grows, with the cell's rolls, what flora the plan allows on the block
/// just generated at `(dx, dy, dz)`.
fn grow_flora_with(
    chunk: &mut BlockMap,
    requests: &mut Vec<FloraRequest>,
    plan: &ColumnPlan,
    dx: i32,
    dy: i32,
    dz: i32,
    block: BlockId,
    r: &FloraRolls,
    Ghost(cy): Ghost<int>,
    Ghost(columns): Ghost<Seq<ColumnPlan>>,
    Ghost(quiet): Ghost<bool>,
)
    requires
        0 <= dx < 16,
        0 <= dy < 16,
        0 <= dz < 16,
        columns.len() == CHUNK_COLUMNS,
        *plan == plan_of(columns, dx as int, dz as int),
        block == column_block(16 * cy + dy, *plan),
        column_filled(16 * cy + dy, *plan),
        old(chunk).wf(),
        generation_inv(old(chunk)@, cy, columns, dx * 16 + dz, dy + 1, quiet),
        quiet ==> column_quiet(*plan),
        forall|i: int|
            0 <= i < old(requests)@.len() ==> request_ok(#[trigger] old(requests)@[i], cy, columns),
    ensures
        final(chunk).wf(),
        (final(chunk)@, final(requests)@) == flora_cell_step(
            old(chunk)@,
            old(requests)@,
            IVec3 { x: dx, y: dy, z: dz },
            block,
            *plan,
            *r,
        ),
        generation_inv(final(chunk)@, cy, columns, dx * 16 + dz, dy + 1, quiet),
        forall|i: int|
            0 <= i < final(requests)@.len() ==> request_ok(
                #[trigger] final(requests)@[i],
                cy,
                columns,
            ),
        quiet ==> final(requests)@ == old(requests)@,
{
    let grass = single_block(BlockId::Grass);
    let sand = single_block(BlockId::Sand);
    let valid_tree_position = dx >= 1 && dx < 15 && dz >= 1 && dz < 15;
    let big = plan.forest && r.big_tree < 10;
    let ghost c = dx * 16 + dz;
    let ghost d = dy + 1;
    if dy + 1 >= 16 {
        let flora = if flora_roll_succeeds(plan.flower, block, &grass, r.flower) {
            proof {
                lemma_one_grass(grass@, block, BlockId::Grass);
            }
            Some(FloraType::Flower)
        } else if flora_roll_succeeds(plan.tall_grass, block, &grass, r.tall_grass) {
            proof {
                lemma_one_grass(grass@, block, BlockId::Grass);
            }
            Some(FloraType::TallGrass)
        } else if valid_tree_position && flora_roll_succeeds(plan.tree, block, &grass, r.tree) {
            proof {
                lemma_one_grass(grass@, block, BlockId::Grass);
            }
            if big {
                Some(FloraType::BigTree)
            } else {
                Some(FloraType::Tree)
            }
        } else if flora_roll_succeeds(plan.cactus, block, &sand, r.cactus) {
            proof {
                lemma_one_grass(sand@, block, BlockId::Sand);
            }
            Some(FloraType::Cactus)
        } else {
            None
        };
        match flora {
            Some(flora_type) => {
                let request = FloraRequest {
                    local_x: dx,
                    local_z: dz,
                    flora_type,
                    biome_type: plan.biome_type,
                };
                assert(request_ok(request, cy, columns));
                requests.push(request);
                assert forall|i: int| 0 <= i < requests@.len() implies request_ok(
                    #[trigger] requests@[i],
                    cy,
                    columns,
                ) by {
                    if i < old(requests)@.len() {
                        assert(requests@[i] == old(requests)@[i]);
                    }
                }
            },
            None => {},
        }
        return ;
    }
    let y1 = dy + 1;
    if flora_roll_succeeds(plan.flower, block, &grass, r.flower) {
        proof {
            lemma_one_grass(grass@, block, BlockId::Grass);
        }
        let flower_type = if r.dandelion {
            BlockId::Dandelion
        } else {
            BlockId::Poppy
        };
        chunk.insert(IVec3::new(dx, y1, dz), BlockData::new(flower_type, BlockDirection::Front));
        proof {
            lemma_inv_insert_flora(old(chunk)@, cy, columns, c, d, IVec3 { x: dx, y: y1, z: dz }, flower_type);
        }
    } else if flora_roll_succeeds(plan.tall_grass, block, &grass, r.tall_grass) {
        proof {
            lemma_one_grass(grass@, block, BlockId::Grass);
        }
        chunk.insert(IVec3::new(dx, y1, dz), BlockData::new(BlockId::TallGrass, BlockDirection::Front));
        proof {
            lemma_inv_insert_flora(
                old(chunk)@,
                cy,
                columns,
                c,
                d,
                IVec3 { x: dx, y: y1, z: dz },
                BlockId::TallGrass,
            );
        }
    } else if valid_tree_position && flora_roll_succeeds(plan.tree, block, &grass, r.tree) {
        proof {
            lemma_one_grass(grass@, block, BlockId::Grass);
        }
        let canopy = canopy_rolls(r.canopy);
        if big {
            let writes = big_tree_layout(
                dx,
                y1,
                dz,
                BlockId::OakLog,
                BlockId::OakLeaves,
                r.height,
                &r.first,
                &r.second,
                &canopy,
            );
            place_blocks(chunk, &writes);
            proof {
                lemma_big_tree_kinds(dx as int, y1 as int, dz as int, r.height, r.first, r.second, canopy@);
                lemma_big_tree_from(
                    dx as int,
                    y1 as int,
                    dz as int,
                    BlockId::OakLog,
                    BlockId::OakLeaves,
                    r.height,
                    r.first,
                    r.second,
                    canopy@,
                );
                lemma_inv_place_all(old(chunk)@, writes@, cy, columns, c, d);
            }
        } else {
            let writes = tree_layout(dx, y1, dz, BlockId::OakLog, BlockId::OakLeaves, r.height, &canopy);
            place_blocks(chunk, &writes);
            proof {
                lemma_tree_kinds(dx as int, y1 as int, dz as int, r.height, canopy@);
                lemma_tree_from(
                    dx as int,
                    y1 as int,
                    dz as int,
                    BlockId::OakLog,
                    BlockId::OakLeaves,
                    r.height,
                    canopy@,
                );
                lemma_inv_place_all(old(chunk)@, writes@, cy, columns, c, d);
            }
        }
    } else if flora_roll_succeeds(plan.cactus, block, &sand, r.cactus) {
        proof {
            lemma_one_grass(sand@, block, BlockId::Sand);
        }
        let writes = cactus_layout(dx, y1, dz, BlockId::Cactus, r.height);
        place_blocks(chunk, &writes);
        proof {
            lemma_cactus_kinds(dx as int, y1 as int, dz as int, cactus_column_height(r.height));
            lemma_column_from(dx as int, y1 as int, dz as int, cactus_column_height(r.height), BlockId::Cactus);
            lemma_from_weaken(writes@, y1 as int, 1);
            lemma_inv_place_all(old(chunk)@, writes@, cy, columns, c, d);
        }
    }
}

proof fn lemma_cell_number(dx: int, dz: int, dy: int)
    requires
        0 <= dx < 16,
        0 <= dz < 16,
        0 <= dy < 16,
    ensures
        ((dx * 16 + dz) * 16 + dy) / 16 == dx * 16 + dz,
        chunk_cell((dx * 16 + dz) * 16 + dy) == (IVec3 { x: dx as i32, y: dy as i32, z: dz as i32 }),
{
    let n = (dx * 16 + dz) * 16 + dy;
    assert(n / 16 == dx * 16 + dz) by (nonlinear_arith)
        requires
            n == (dx * 16 + dz) * 16 + dy,
            0 <= dy < 16,
    ;
    assert(n % 16 == dy) by (nonlinear_arith)
        requires
            n == (dx * 16 + dz) * 16 + dy,
            0 <= dy < 16,
            0 <= dx,
            0 <= dz,
    ;
    assert(n / 256 == dx) by (nonlinear_arith)
        requires
            n == (dx * 16 + dz) * 16 + dy,
            0 <= dy < 16,
            0 <= dz < 16,
    ;
    assert((dx * 16 + dz) % 16 == dz) by (nonlinear_arith)
        requires
            0 <= dz < 16,
            0 <= dx,
    ;
}

/// Whether the cell `(dx, 0, dz)` of `m` holds bedrock.
pub open spec fn bedrock_at(m: Map<IVec3, BlockData>, dx: i32, dz: i32) -> bool {
    let k = IVec3 { x: dx, y: 0, z: dz };
    m.dom().contains(k) && m[k].id == BlockId::Bedrock
}

/// The properties of a generated chunk that hold whatever the rolls; at
/// chunk height 0 the whole bottom layer is bedrock, whatever flora the
/// requests from below or the rolls would have put there.
pub open spec fn generated_chunk_ok(
    m: Map<IVec3, BlockData>,
    reqs: Seq<FloraRequest>,
    cy: int,
    columns: Seq<ColumnPlan>,
    pending: Seq<FloraRequest>,
) -> bool {
    &&& forall|k: IVec3|
        #![trigger m.dom().contains(k)]
        m.dom().contains(k) ==> in_chunk(k) && m[k].direction == BlockDirection::Front
            && m[k].breaking_progress == 0 && (flora_kind(m[k].id) || (terrain_cell(cy, columns, k)
            && m[k].id == terrain_block(cy, columns, k)))
    &&& forall|k: IVec3|
        #![trigger m.dom().contains(k)]
        terrain_cell(cy, columns, k) ==> m.dom().contains(k)
    &&& forall|k: IVec3|
        #![trigger m[k]]
        terrain_cell(cy, columns, k) && k.y == 0 ==> m[k].id == terrain_block(cy, columns, k)
    &&& cy == 0 ==> forall|dx: i32, dz: i32|
        0 <= dx < 16 && 0 <= dz < 16 ==> #[trigger] bedrock_at(m, dx, dz)
    &&& forall|i: int| 0 <= i < reqs.len() ==> request_ok(#[trigger] reqs[i], cy, columns)
    &&& chunk_quiet(columns, pending) ==> reqs.len() == 0 && forall|k: IVec3|
        #![trigger m.dom().contains(k)]
        m.dom().contains(k) == terrain_cell(cy, columns, k) && (m.dom().contains(k) ==> m[k]
            == placed(terrain_block(cy, columns, k)))
}

/// Column `(x, z)` carries a flower whatever the rolls: its flower chance
/// is 1000 thousandths or more and the chunk's top cell of it is grass.
pub open spec fn sure_flower(cy: int, columns: Seq<ColumnPlan>, x: i32, z: i32) -> bool {
    let plan = plan_of(columns, x as int, z as int);
    &&& plan.flower >= 1000
    &&& column_filled(16 * cy + 15, plan)
    &&& column_block(16 * cy + 15, plan) == BlockId::Grass
}

/// Every column that carries a flower whatever the rolls has left a flower
/// request for the chunk above.
pub open spec fn sure_flowers_requested(
    reqs: Seq<FloraRequest>,
    cy: int,
    columns: Seq<ColumnPlan>,
) -> bool {
    forall|x: i32, z: i32|
        0 <= x < 16 && 0 <= z < 16 && #[trigger] sure_flower(cy, columns, x, z) ==> reqs.contains(
            request_at(x, z, FloraType::Flower, plan_of(columns, x as int, z as int).biome_type),
        )
}

proof fn lemma_step_keeps_requests(
    state: (Map<IVec3, BlockData>, Seq<FloraRequest>),
    cy: int,
    columns: Seq<ColumnPlan>,
    n: int,
    r: FloraRolls,
)
    ensures
        generation_step(state, cy, columns, n, r).1.len() >= state.1.len(),
        forall|i: int|
            0 <= i < state.1.len() ==> generation_step(state, cy, columns, n, r).1[i] == state.1[i],
{
}

proof fn lemma_upto_keeps_requests(
    cy: int,
    columns: Seq<ColumnPlan>,
    pending: Seq<FloraRequest>,
    pending_rolls: Seq<FloraRolls>,
    rolls: Seq<FloraRolls>,
    a: int,
    b: int,
)
    requires
        0 <= a <= b,
    ensures
        generation_upto(cy, columns, pending, pending_rolls, rolls, b).1.len() >= generation_upto(
            cy,
            columns,
            pending,
            pending_rolls,
            rolls,
            a,
        ).1.len(),
        forall|i: int|
            0 <= i < generation_upto(cy, columns, pending, pending_rolls, rolls, a).1.len()
                ==> generation_upto(cy, columns, pending, pending_rolls, rolls, b).1[i]
                == generation_upto(cy, columns, pending, pending_rolls, rolls, a).1[i],
    decreases b - a,
{
    if b > a {
        lemma_upto_keeps_requests(cy, columns, pending, pending_rolls, rolls, a, b - 1);
        lemma_step_keeps_requests(
            generation_upto(cy, columns, pending, pending_rolls, rolls, b - 1),
            cy,
            columns,
            b - 1,
            rolls[b - 1],
        );
    }
}

/// With rolls as drawn, a column that carries a flower whatever the rolls
/// leaves a flower request for the chunk above.
proof fn lemma_sure_flower(
    cy: int,
    columns: Seq<ColumnPlan>,
    pending: Seq<FloraRequest>,
    pending_rolls: Seq<FloraRolls>,
    rolls: Seq<FloraRolls>,
    x: i32,
    z: i32,
)
    requires
        columns.len() == CHUNK_COLUMNS,
        rolls.len() == CHUNK_CELLS,
        rolls_drawn(columns, rolls),
        0 <= x < 16,
        0 <= z < 16,
        sure_flower(cy, columns, x, z),
    ensures
        generation_spec(cy, columns, pending, pending_rolls, rolls).1.contains(
            request_at(x, z, FloraType::Flower, plan_of(columns, x as int, z as int).biome_type),
        ),
{
    let n = (x * 16 + z) * 16 + 15;
    lemma_cell_number(x as int, z as int, 15);
    let before = generation_upto(cy, columns, pending, pending_rolls, rolls, n);
    let after = generation_upto(cy, columns, pending, pending_rolls, rolls, n + 1);
    let r = rolls[n];
    assert(r.flower < 1000);
    assert(seq![BlockId::Grass].contains(BlockId::Grass)) by {
        assert(seq![BlockId::Grass][0] == BlockId::Grass);
    }
    let q = request_at(x, z, FloraType::Flower, plan_of(columns, x as int, z as int).biome_type);
    assert(after.1 == before.1.push(q));
    lemma_upto_keeps_requests(cy, columns, pending, pending_rolls, rolls, n + 1, CHUNK_CELLS as int);
    let fin = generation_spec(cy, columns, pending, pending_rolls, rolls);
    assert(fin.1[before.1.len() as int] == q);
}

/// Generates the blocks of a chunk at chunk position `chunk_pos` from the
/// plans of its 256 columns (column `(x, z)` at index `x * 16 + z`), the
/// flora requests left by the chunk below with their rolls, and the rolls of
/// every cell (cell `(x, y, z)` at index `(x * 16 + z) * 16 + y`). The
/// requests are grown first; then each column is filled bottom-up (bedrock,
/// stone, sub-surface, surface, water up to sea level), and after each
/// filled cell its flora step runs. Returns the blocks and the requests for
/// the chunk above.
pub fn generate_chunk_layout(
    chunk_pos: IVec3,
    columns: &Vec<ColumnPlan>,
    pending: &Vec<FloraRequest>,
    pending_rolls: &Vec<FloraRolls>,
    rolls: &Vec<FloraRolls>,
) -> (r: (BlockMap, Vec<FloraRequest>))
    requires
        columns@.len() == CHUNK_COLUMNS,
        rolls@.len() == CHUNK_CELLS,
        pending_rolls@.len() == pending@.len(),
        i32::MIN <= 16 * chunk_pos.y,
        16 * chunk_pos.y + 15 <= i32::MAX,
        forall|i: int|
            0 <= i < pending@.len() ==> 0 <= (#[trigger] pending@[i]).local_x < 16 && 0
                <= pending@[i].local_z < 16,
    ensures
        r.0.wf(),
        (r.0@, r.1@) == generation_spec(
            chunk_pos.y as int,
            columns@,
            pending@,
            pending_rolls@,
            rolls@,
        ),
        generated_chunk_ok(r.0@, r.1@, chunk_pos.y as int, columns@, pending@),
{
    let ghost cy = chunk_pos.y as int;
    let ghost cols = columns@;
    let ghost quiet = chunk_quiet(columns@, pending@);
    let mut chunk = BlockMap::new();
    let mut i: usize = 0;
    while i < pending.len()
        invariant
            i <= pending@.len(),
            pending_rolls@.len() == pending@.len(),
            chunk.wf(),
            chunk@ == pending_upto(pending@, pending_rolls@, i as int),
            generation_inv(chunk@, cy, cols, 0, 0, quiet),
            quiet ==> pending@.len() == 0,
            forall|t: int|
                0 <= t < pending@.len() ==> 0 <= (#[trigger] pending@[t]).local_x < 16 && 0
                    <= pending@[t].local_z < 16,
        decreases pending.len() - i,
    {
        grow_request_with(&mut chunk, &pending[i], &pending_rolls[i], Ghost(cy), Ghost(cols));
        i += 1;
    }
    let mut requests: Vec<FloraRequest> = Vec::new();
    let base_y = 16 * chunk_pos.y;
    let mut dx: i32 = 0;
    while dx < 16
        invariant
            0 <= dx <= 16,
            cols.len() == CHUNK_COLUMNS,
            cols == columns@,
            rolls@.len() == CHUNK_CELLS,
            base_y == 16 * cy,
            cy == chunk_pos.y,
            i32::MIN <= 16 * cy,
            16 * cy + 15 <= i32::MAX,
            chunk.wf(),
            (chunk@, requests@) == generation_upto(
                cy,
                cols,
                pending@,
                pending_rolls@,
                rolls@,
                dx * 256,
            ),
            generation_inv(chunk@, cy, cols, dx * 16, 0, quiet),
            quiet ==> forall|t: int| 0 <= t < cols.len() ==> column_quiet(#[trigger] cols[t]),
            forall|t: int| 0 <= t < requests@.len() ==> request_ok(#[trigger] requests@[t], cy, cols),
            quiet ==> requests@.len() == 0,
        decreases 16 - dx,
    {
        let mut dz: i32 = 0;
        while dz < 16
            invariant
                0 <= dx < 16,
                0 <= dz <= 16,
                cols.len() == CHUNK_COLUMNS,
                cols == columns@,
                rolls@.len() == CHUNK_CELLS,
                base_y == 16 * cy,
                i32::MIN <= 16 * cy,
                16 * cy + 15 <= i32::MAX,
                chunk.wf(),
                (chunk@, requests@) == generation_upto(
                    cy,
                    cols,
                    pending@,
                    pending_rolls@,
                    rolls@,
                    (dx * 16 + dz) * 16,
                ),
                generation_inv(chunk@, cy, cols, dx * 16 + dz, 0, quiet),
                quiet ==> forall|t: int| 0 <= t < cols.len() ==> column_quiet(#[trigger] cols[t]),
                forall|t: int|
                    0 <= t < requests@.len() ==> request_ok(#[trigger] requests@[t], cy, cols),
                quiet ==> requests@.len() == 0,
            decreases 16 - dz,
        {
            let column = (dx * 16 + dz) as usize;
            let plan = columns[column];
            let mut dy: i32 = 0;
            while dy < 16
                invariant
                    0 <= dx < 16,
                    0 <= dz < 16,
                    0 <= dy <= 16,
                    column == dx * 16 + dz,
                    cols.len() == CHUNK_COLUMNS,
                    rolls@.len() == CHUNK_CELLS,
                    plan == plan_of(cols, dx as int, dz as int),
                    base_y == 16 * cy,
                    i32::MIN <= 16 * cy,
                    16 * cy + 15 <= i32::MAX,
                    chunk.wf(),
                    (chunk@, requests@) == generation_upto(
                        cy,
                        cols,
                        pending@,
                        pending_rolls@,
                        rolls@,
                        (dx * 16 + dz) * 16 + dy,
                    ),
                    generation_inv(chunk@, cy, cols, dx * 16 + dz, dy as int, quiet),
                    quiet ==> column_quiet(plan),
                    forall|t: int|
                        0 <= t < requests@.len() ==> request_ok(#[trigger] requests@[t], cy, cols),
                    quiet ==> requests@.len() == 0,
                decreases 16 - dy,
            {
                let ghost n = (dx * 16 + dz) * 16 + dy;
                proof {
                    lemma_cell_number(dx as int, dz as int, dy as int);
                }
                let cell = column * 16 + dy as usize;
                let y = base_y + dy;
                if !(y > plan.terrain_height && y > SEA_LEVEL) {
                    let block = column_block_at(y, &plan);
                    let ghost before = chunk@;
                    chunk.insert(IVec3::new(dx, dy, dz), BlockData::new(block, BlockDirection::Front));
                    proof {
                        lemma_inv_fill(before, cy, cols, dx as int, dy as int, dz as int, quiet);
                    }
                    grow_flora_with(
                        &mut chunk,
                        &mut requests,
                        &plan,
                        dx,
                        dy,
                        dz,
                        block,
                        &rolls[cell],
                        Ghost(cy),
                        Ghost(cols),
                        Ghost(quiet),
                    );
                } else {
                    proof {
                        lemma_inv_skip(chunk@, cy, cols, dx as int, dy as int, dz as int, quiet);
                    }
                }
                dy += 1;
            }
            proof {
                lemma_inv_next_column(chunk@, cy, cols, dx * 16 + dz, quiet);
            }
            dz += 1;
        }
        dx += 1;
    }
    proof {
        assert forall|k: IVec3| #![trigger chunk@.dom().contains(k)]
            terrain_cell(cy, cols, k) implies chunk@.dom().contains(k) by {
            assert(done_before(256, 0, k));
        }
        assert forall|k: IVec3| #![trigger chunk@[k]]
            terrain_cell(cy, cols, k) && k.y == 0 implies chunk@[k].id == terrain_block(cy, cols, k) by {
            assert(done_before(256, 0, k));
            assert(chunk@.dom().contains(k));
        }
        if cy == 0 {
            assert forall|dx: i32, dz: i32| 0 <= dx < 16 && 0 <= dz < 16 implies #[trigger] bedrock_at(
                chunk@,
                dx,
                dz,
            ) by {
                let k = IVec3 { x: dx, y: 0, z: dz };
                assert(terrain_cell(cy, cols, k));
                assert(done_before(256, 0, k));
                assert(chunk@.dom().contains(k));
                assert(chunk@[k].id == terrain_block(cy, cols, k));
            }
        }
        if quiet {
            assert forall|k: IVec3| #![trigger chunk@.dom().contains(k)]
                chunk@.dom().contains(k) implies chunk@[k] == placed(terrain_block(cy, cols, k)) by {
                assert(chunk@[k].id == terrain_block(cy, cols, k));
            }
        }
        assert(generated_chunk_ok(chunk@, requests@, cy, cols, pending@));
    }
    (chunk, requests)
}

/// A canopy mask whose low `CANOPY_CELLS` bits are each set with
/// probability one in five.
fn roll_canopy_mask() -> u128 {
    let mut mask: u128 = 0;
    let mut i: u32 = 0;
    while i < 75
        invariant
            i <= 75,
        decreases 75 - i,
    {
        if random_ratio(1, 5) {
            mask = mask | (1u128 << (i as u128));
        }
        i += 1;
    }
    mask
}

/// Draws the rolls of one cell of a column with the given plan.
fn roll_cell(plan: &ColumnPlan) -> (r: FloraRolls)
    ensures
        r.flower < 1000 && r.tall_grass < 1000 && r.tree < 1000 && r.cactus < 1000,
        plan.tree > 0 ==> r.big_tree < plan.tree,
{
    let flower = random_below(1000);
    let tall_grass = random_below(1000);
    let tree = random_below(1000);
    let cactus = random_below(1000);
    let dandelion = random_ratio(1, 2);
    let big_tree = if plan.tree > 0 {
        random_below(plan.tree)
    } else {
        0
    };
    let height = roll_byte();
    let first = roll_branch();
    let second = roll_branch();
    let canopy = roll_canopy_mask();
    FloraRolls { flower, tall_grass, tree, cactus, dandelion, big_tree, height, first, second, canopy }
}

/// Rolls for a cell that is not filled, which draw nothing.
fn still_rolls() -> (r: FloraRolls)
    ensures
        r.flower == 0 && r.tall_grass == 0 && r.tree == 0 && r.cactus == 0 && r.big_tree == 0,
{
    let b = BranchRolls { x_roll: 0, z_roll: 0, y_roll: 0, length_roll: 0 };
    FloraRolls {
        flower: 0,
        tall_grass: 0,
        tree: 0,
        cactus: 0,
        dandelion: false,
        big_tree: 0,
        height: 0,
        first: b,
        second: b,
        canopy: 0,
    }
}

/// Generates a chunk as `generate_chunk_layout` does, with freshly drawn
/// rolls: each flora roll uniform in `0..1000`, an even choice of flower, a
/// big-tree roll uniform below the cell's tree chance, and the rolls of the
/// plant itself; cells that are not filled draw nothing. Whatever is drawn,
/// the chunk has the properties of `generated_chunk_ok`, and every column
/// whose top cell is grass with a flower chance of 1000 thousandths or more
/// leaves a flower request for the chunk above.
pub fn generate_chunk_blocks(
    chunk_pos: IVec3,
    columns: &Vec<ColumnPlan>,
    pending: &Vec<FloraRequest>,
) -> (r: (BlockMap, Vec<FloraRequest>))
    requires
        columns@.len() == CHUNK_COLUMNS,
        i32::MIN <= 16 * chunk_pos.y,
        16 * chunk_pos.y + 15 <= i32::MAX,
        forall|i: int|
            0 <= i < pending@.len() ==> 0 <= (#[trigger] pending@[i]).local_x < 16 && 0
                <= pending@[i].local_z < 16,
    ensures
        r.0.wf(),
        exists|pending_rolls: Seq<FloraRolls>, rolls: Seq<FloraRolls>|
            pending_rolls.len() == pending@.len() && rolls.len() == CHUNK_CELLS && rolls_drawn(
                columns@,
                rolls,
            ) && (r.0@, r.1@) == generation_spec(
                chunk_pos.y as int,
                columns@,
                pending@,
                pending_rolls,
                rolls,
            ),
        generated_chunk_ok(r.0@, r.1@, chunk_pos.y as int, columns@, pending@),
        sure_flowers_requested(r.1@, chunk_pos.y as int, columns@),
{
    let mut pending_rolls: Vec<FloraRolls> = Vec::new();
    let mut i: usize = 0;
    let empty = ColumnPlan {
        terrain_height: 0,
        surface_block: BlockId::Dirt,
        sub_surface_block: BlockId::Dirt,
        flower: 0,
        tall_grass: 0,
        tree: 0,
        cactus: 0,
        forest: false,
        biome_type: 0,
    };
    while i < pending.len()
        invariant
            i <= pending@.len(),
            pending_rolls@.len() == i,
        decreases pending.len() - i,
    {
        pending_rolls.push(roll_cell(&empty));
        i += 1;
    }
    let mut rolls: Vec<FloraRolls> = Vec::new();
    let base_y = 16 * chunk_pos.y;
    let mut n: usize = 0;
    while n < CHUNK_CELLS
        invariant
            n <= CHUNK_CELLS,
            rolls@.len() == n,
            columns@.len() == CHUNK_COLUMNS,
            base_y == 16 * chunk_pos.y,
            i32::MIN <= 16 * chunk_pos.y,
            16 * chunk_pos.y + 15 <= i32::MAX,
            rolls_drawn(columns@, rolls@),
        decreases CHUNK_CELLS - n,
    {
        let plan = columns[n / 16];
        let y = base_y + (n % 16) as i32;
        let r = if !(y > plan.terrain_height && y > SEA_LEVEL) {
            roll_cell(&plan)
        } else {
            still_rolls()
        };
        let ghost prev = rolls@;
        rolls.push(r);
        proof {
            assert forall|t: int| 0 <= t < rolls@.len() implies {
                let q = #[trigger] rolls@[t];
                &&& q.flower < 1000 && q.tall_grass < 1000 && q.tree < 1000 && q.cactus < 1000
                &&& columns@[t / 16].tree > 0 ==> q.big_tree < columns@[t / 16].tree
            } by {
                if t < n {
                    assert(rolls@[t] == prev[t]);
                }
            }
        }
        n += 1;
    }
    let r = generate_chunk_layout(chunk_pos, columns, pending, &pending_rolls, &rolls);
    proof {
        assert forall|x: i32, z: i32|
            0 <= x < 16 && 0 <= z < 16 && #[trigger] sure_flower(
                chunk_pos.y as int,
                columns@,
                x,
                z,
            ) implies r.1@.contains(
                request_at(x, z, FloraType::Flower, plan_of(columns@, x as int, z as int).biome_type),
            ) by {
            lemma_sure_flower(
                chunk_pos.y as int,
                columns@,
                pending@,
                pending_rolls@,
                rolls@,
                x,
                z,
            );
        }
    }
    r
}

} // verus!
