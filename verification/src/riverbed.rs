//! Flat indexing of padded chunks: a chunk of `CHUNK_S1` blocks per side is
//! stored with a one-block border (copied from its neighbours), so the
//! stored cube has `CHUNKP_S1 = CHUNK_S1 + 2` blocks per side.
use vstd::prelude::*;

verus! {

/// Blocks per side of a chunk.
pub const CHUNK_S1: usize = 16;
/// Blocks per side of a chunk, as a signed integer.
pub const CHUNK_S1I: i32 = 16;
/// Blocks per side of a padded chunk.
pub const CHUNKP_S1: usize = 18;
/// Blocks per layer of a padded chunk.
pub const CHUNKP_S2: usize = 324;
/// Blocks in a padded chunk.
pub const CHUNKP_S3: usize = 5832;

/// Index of the padded cell `(x, y, z)`: `z + x * CHUNKP_S1 + y * CHUNKP_S2`
/// (`CHUNKP_S1 = 18`, `CHUNKP_S2 = 324`).
pub open spec fn linearize_spec(x: int, y: int, z: int) -> int {
    z + x * 18 + y * 324
}

/// Flat index of a cell given in padded coordinates.
pub fn linearize(x: usize, y: usize, z: usize) -> (r: usize)
    requires
        linearize_spec(x as int, y as int, z as int) <= usize::MAX,
    ensures
        r == linearize_spec(x as int, y as int, z as int),
{
    proof {
        assert(0 <= x * CHUNKP_S1 <= z + x * CHUNKP_S1 + y * CHUNKP_S2) by (nonlinear_arith);
        assert(0 <= y * CHUNKP_S2 <= z + x * CHUNKP_S1 + y * CHUNKP_S2) by (nonlinear_arith);
    }
    z + x * CHUNKP_S1 + y * CHUNKP_S2
}

/// Flat index of a cell given in unpadded chunk coordinates (shifted by the border).
pub fn pad_linearize(x: usize, y: usize, z: usize) -> (r: usize)
    requires
        linearize_spec(x + 1, y + 1, z + 1) <= usize::MAX,
    ensures
        r == linearize_spec(x + 1, y + 1, z + 1),
{
    proof {
        assert(0 <= (x + 1) * CHUNKP_S1 <= z + 1 + (x + 1) * CHUNKP_S1 + (y + 1) * CHUNKP_S2)
            by (nonlinear_arith);
        assert(0 <= (y + 1) * CHUNKP_S2 <= z + 1 + (x + 1) * CHUNKP_S1 + (y + 1) * CHUNKP_S2)
            by (nonlinear_arith);
    }
    z + 1 + (x + 1) * CHUNKP_S1 + (y + 1) * CHUNKP_S2
}

/// One of the six faces of a chunk.
#[derive(Debug, Clone, Copy, PartialEq, Eq, Structural, Hash)]
pub enum Face {
    Left,
    Down,
    Back,
    Right,
    Up,
    Front,
}

/// Outward unit normal of a face.
pub open spec fn normal_spec(face: Face) -> (i32, i32, i32) {
    match face {
        Face::Left => (-1i32, 0i32, 0i32),
        Face::Down => (0i32, -1i32, 0i32),
        Face::Back => (0i32, 0i32, -1i32),
        Face::Right => (1, 0, 0),
        Face::Up => (0, 1, 0),
        Face::Front => (0, 0, 1),
    }
}

/// The face on the other side of the chunk.
pub open spec fn face_opposite_spec(face: Face) -> Face {
    match face {
        Face::Left => Face::Right,
        Face::Down => Face::Up,
        Face::Back => Face::Front,
        Face::Right => Face::Left,
        Face::Up => Face::Down,
        Face::Front => Face::Back,
    }
}

impl Face {
    /// Outward unit normal `[x, y, z]`.
    pub fn n(&self) -> (r: [i32; 3])
        ensures
            (r@[0], r@[1], r@[2]) == normal_spec(*self),
            r@.len() == 3,
    {
        match self {
            Face::Left => [-1, 0, 0],
            Face::Down => [0, -1, 0],
            Face::Back => [0, 0, -1],
            Face::Right => [1, 0, 0],
            Face::Up => [0, 1, 0],
            Face::Front => [0, 0, 1],
        }
    }

    /// The opposite face.
    pub fn opposite(&self) -> (r: Face)
        ensures
            r == face_opposite_spec(*self),
    {
        match self {
            Face::Left => Face::Right,
            Face::Down => Face::Up,
            Face::Back => Face::Front,
            Face::Right => Face::Left,
            Face::Up => Face::Down,
            Face::Front => Face::Back,
        }
    }
}

/// Padded coordinate of the border layer outside a face along one axis:
/// `0` for a negative normal, `CHUNK_S1 + 1` for a positive one, `1` otherwise.
pub open spec fn border_coord(n: int) -> int {
    if n < 0 {
        0
    } else if n > 0 {
        CHUNK_S1 as int + 1
    } else {
        1
    }
}

/// Padded coordinate of the last inner layer along a face's axis:
/// `1` for a negative normal, `CHUNK_S1` for a positive one, `1` otherwise.
pub open spec fn inner_coord(n: int) -> int {
    if n > 0 {
        CHUNK_S1 as int
    } else {
        1
    }
}

/// `(n * CHUNK_S1I).max(1)` for a normal component.
fn scaled_max_one(n: i32) -> (r: i32)
    requires
        -1 <= n <= 1,
    ensures
        r == inner_coord(n as int),
{
    let v = n * CHUNK_S1I;
    if v > 1 {
        v
    } else {
        1
    }
}

/// Index of the `c`-th cell of the `r`-th row of the cells just outside
/// `face`: rows follow `y` for the left/right and back/front faces and `x`
/// for the down/up faces; cells within a row follow `z`, `z` and `x`.
pub open spec fn side_index_spec(face: Face, r: int, c: int) -> int {
    let (nx, ny, nz) = normal_spec(face);
    let x0 = border_coord(nx as int);
    let y0 = border_coord(ny as int);
    let z0 = border_coord(nz as int);
    match face {
        Face::Left | Face::Right => linearize_spec(x0, y0 + r, z0 + c),
        Face::Down | Face::Up => linearize_spec(x0 + r, y0, z0 + c),
        Face::Back | Face::Front => linearize_spec(x0 + c, y0 + r, z0),
    }
}

/// Index of the `c`-th cell of the `r`-th row of the cells just inside
/// `face`, in the same row and cell order as `side_index_spec`.
pub open spec fn inner_side_index_spec(face: Face, r: int, c: int) -> int {
    let (nx, ny, nz) = normal_spec(face);
    let x0 = inner_coord(nx as int);
    let y0 = inner_coord(ny as int);
    let z0 = inner_coord(nz as int);
    match face {
        Face::Left | Face::Right => linearize_spec(x0, y0 + r, z0 + c),
        Face::Down | Face::Up => linearize_spec(x0 + r, y0, z0 + c),
        Face::Back | Face::Front => linearize_spec(x0 + c, y0 + r, z0),
    }
}

/// Step between two cells of a row of a face layer.
fn row_step(face: Face) -> (r: usize)
    ensures
        r == (match face {
            Face::Back | Face::Front => CHUNKP_S1,
            _ => 1,
        }),
{
    match face {
        Face::Left | Face::Right => 1,
        Face::Down | Face::Up => 1,
        Face::Back | Face::Front => CHUNKP_S1,
    }
}

/// Extra step from the end of a row of a face layer to the start of the next row.
fn col_step(face: Face) -> (r: usize)
    ensures
        r == (match face {
            Face::Left | Face::Right => CHUNKP_S2 - CHUNK_S1,
            Face::Down | Face::Up => CHUNKP_S1 - CHUNK_S1,
            Face::Back | Face::Front => CHUNKP_S1 + CHUNKP_S1,
        }),
{
    match face {
        Face::Left | Face::Right => CHUNKP_S2 - CHUNK_S1,
        Face::Down | Face::Up => CHUNKP_S1 - CHUNK_S1,
        Face::Back | Face::Front => CHUNKP_S1 + CHUNKP_S1,
    }
}

/// Distance between the starts of two consecutive rows of a face layer.
pub open spec fn row_stride(face: Face) -> int {
    match face {
        Face::Left | Face::Right => 324,
        Face::Down | Face::Up => 18,
        Face::Back | Face::Front => 324,
    }
}

/// Distance between two consecutive cells of a row of a face layer.
pub open spec fn cell_stride(face: Face) -> int {
    match face {
        Face::Back | Face::Front => 18,
        _ => 1,
    }
}

/// Walks a face layer with fixed row and column steps starting at `start`,
/// returning the visited indices.
fn walk_side(face: Face, start: usize) -> (r: Vec<usize>)
    requires
        start <= CHUNKP_S3,
    ensures
        r@.len() == CHUNK_S1 * CHUNK_S1,
        forall|i: int, j: int|
            0 <= i < CHUNK_S1 && 0 <= j < CHUNK_S1 ==> #[trigger] r@[i * CHUNK_S1 + j] == start + i
                * row_stride(face) + j * cell_stride(face),
{
    let rs = row_step(face);
    let cs = col_step(face);
    let ghost big = row_stride(face);
    assert(rs * CHUNK_S1 + cs == big);
    let mut res: Vec<usize> = Vec::new();
    let mut idx = start;
    let mut i: usize = 0;
    while i < CHUNK_S1
        invariant
            i <= CHUNK_S1,
            rs == cell_stride(face),
            big == row_stride(face),
            1 <= rs <= CHUNKP_S1,
            rs * CHUNK_S1 + cs == big,
            start <= CHUNKP_S3,
            idx == start + i * big,
            1 <= big <= CHUNKP_S2,
            res@.len() == i * CHUNK_S1,
            forall|a: int, b: int|
                0 <= a < i && 0 <= b < CHUNK_S1 ==> #[trigger] res@[a * CHUNK_S1 + b] == start + a
                    * big + b * rs,
        decreases CHUNK_S1 - i,
    {
        let mut j: usize = 0;
        assert(idx == start + i * big + j * rs);
        while j < CHUNK_S1
            invariant
                i < CHUNK_S1,
                j <= CHUNK_S1,
                1 <= rs <= CHUNKP_S1,
                rs * CHUNK_S1 + cs == big,
                start <= CHUNKP_S3,
                1 <= big <= CHUNKP_S2,
                idx == start + i * big + j * rs,
                res@.len() == i * CHUNK_S1 + j,
                forall|a: int, b: int|
                    0 <= a < i && 0 <= b < CHUNK_S1 ==> #[trigger] res@[a * CHUNK_S1 + b] == start
                        + a * big + b * rs,
                forall|b: int|
                    0 <= b < j ==> #[trigger] res@[i * CHUNK_S1 + b] == start + i * big + b * rs,
            decreases CHUNK_S1 - j,
        {
            proof {
                assert(i * big + j * rs <= 15 * 324 + 16 * 18) by (nonlinear_arith)
                    requires
                        i < 16,
                        j < 16,
                        big <= 324,
                        rs <= 18,
                        0 <= i,
                        0 <= j,
                ;
                assert(start + i * big + (j + 1) * rs == start + i * big + j * rs + rs)
                    by (nonlinear_arith);
            }
            res.push(idx);
            idx = idx + rs;
            j += 1;
        }
        proof {
            assert(start + i * big + 16 * rs + cs == start + (i + 1) * big) by (nonlinear_arith)
                requires
                    rs * 16 + cs == big,
            ;
            assert forall|a: int, b: int|
                0 <= a < i + 1 && 0 <= b < CHUNK_S1 implies #[trigger] res@[a * CHUNK_S1 + b] == start
                    + a * big + b * rs by {
                if a == i {
                    assert(res@[i * CHUNK_S1 + b] == start + i * big + b * rs);
                }
            }
            assert(res@.len() == (i + 1) * CHUNK_S1) by (nonlinear_arith)
                requires
                    res@.len() == i * 16 + 16,
            ;
        }
        idx = idx + cs;
        i += 1;
    }
    res
}

/// Start index of the walk over the cells just outside `face`: the padding
/// that a chunk fills from its neighbour across that face.
fn outer_side_start(face: Face) -> (r: usize)
    ensures
        r == side_index_spec(face, 0, 0),
        r <= CHUNKP_S3,
{
    let normal = face.n();
    let nx = normal[0];
    let ny = normal[1];
    let nz = normal[2];
    linearize(
        (scaled_max_one(nx) + nx) as usize,
        (scaled_max_one(ny) + ny) as usize,
        (scaled_max_one(nz) + nz) as usize,
    )
}

/// Start index of the walk over the cells just inside `face`: the cells a
/// neighbour's padding is filled from.
fn inner_side_start(face: Face) -> (r: usize)
    ensures
        r == inner_side_index_spec(face, 0, 0),
        r <= CHUNKP_S3,
{
    let normal = face.n();
    let nx = normal[0];
    let ny = normal[1];
    let nz = normal[2];
    linearize(scaled_max_one(nx) as usize, scaled_max_one(ny) as usize, scaled_max_one(nz) as usize)
}

/// Indices of the padding cells just outside `face`, as `CHUNK_S1` rows of
/// `CHUNK_S1` cells.
pub fn outer_side_indices(face: Face) -> (r: Vec<usize>)
    ensures
        r@.len() == CHUNK_S1 * CHUNK_S1,
        forall|i: int, j: int|
            0 <= i < CHUNK_S1 && 0 <= j < CHUNK_S1 ==> #[trigger] r@[i * CHUNK_S1 + j]
                == side_index_spec(face, i, j),
{
    let start = outer_side_start(face);
    let r = walk_side(face, start);
    proof {
        assert forall|i: int, j: int|
            0 <= i < CHUNK_S1 && 0 <= j < CHUNK_S1 implies #[trigger] r@[i * CHUNK_S1 + j]
                == side_index_spec(face, i, j) by {
            match face {
                Face::Left | Face::Right => {},
                Face::Down | Face::Up => {},
                Face::Back | Face::Front => {},
            }
        }
    }
    r
}

/// Indices of the cells just inside `face`, as `CHUNK_S1` rows of `CHUNK_S1`
/// cells.
pub fn inner_side_indices(face: Face) -> (r: Vec<usize>)
    ensures
        r@.len() == CHUNK_S1 * CHUNK_S1,
        forall|i: int, j: int|
            0 <= i < CHUNK_S1 && 0 <= j < CHUNK_S1 ==> #[trigger] r@[i * CHUNK_S1 + j]
                == inner_side_index_spec(face, i, j),
{
    let start = inner_side_start(face);
    let r = walk_side(face, start);
    proof {
        assert forall|i: int, j: int|
            0 <= i < CHUNK_S1 && 0 <= j < CHUNK_S1 implies #[trigger] r@[i * CHUNK_S1 + j]
                == inner_side_index_spec(face, i, j) by {
            match face {
                Face::Left | Face::Right => {},
                Face::Down | Face::Up => {},
                Face::Back | Face::Front => {},
            }
        }
    }
    r
}

} // verus!
