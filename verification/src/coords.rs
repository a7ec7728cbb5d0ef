//! Conversions between global block positions, chunk positions and
//! positions local to a chunk.
use vstd::prelude::*;

use crate::geometry::IVec3;

verus! {

/// Edge length of a cubic chunk, in blocks.
pub const CHUNK_SIZE: i32 = 16;

/// Chunk coordinate of a block coordinate: floor division by the chunk size.
pub open spec fn chunk_coord_spec(x: int) -> int {
    x / (CHUNK_SIZE as int)
}

/// Coordinate of a block inside its chunk, in `0..CHUNK_SIZE`.
pub open spec fn local_coord_spec(x: int) -> int {
    x % (CHUNK_SIZE as int)
}

/// A block coordinate for which the chunk computation cannot overflow.
pub open spec fn block_coord_ok(x: int) -> bool {
    x >= i32::MIN + (CHUNK_SIZE - 1)
}

/// A global block position whose three coordinates are `block_coord_ok`.
pub open spec fn block_pos_ok(p: IVec3) -> bool {
    block_coord_ok(p.x as int) && block_coord_ok(p.y as int) && block_coord_ok(p.z as int)
}

/// The position `chunk * CHUNK_SIZE + local`, component-wise, over integers.
pub open spec fn global_pos_spec(chunk: IVec3, local: IVec3) -> (int, int, int) {
    (
        chunk.x * CHUNK_SIZE + local.x,
        chunk.y * CHUNK_SIZE + local.y,
        chunk.z * CHUNK_SIZE + local.z,
    )
}

/// True when `chunk * CHUNK_SIZE + local` fits in `i32` on every axis.
pub open spec fn global_pos_fits(chunk: IVec3, local: IVec3) -> bool {
    let (x, y, z) = global_pos_spec(chunk, local);
    &&& i32::MIN <= chunk.x * CHUNK_SIZE <= i32::MAX
    &&& i32::MIN <= chunk.y * CHUNK_SIZE <= i32::MAX
    &&& i32::MIN <= chunk.z * CHUNK_SIZE <= i32::MAX
    &&& i32::MIN <= x <= i32::MAX
    &&& i32::MIN <= y <= i32::MAX
    &&& i32::MIN <= z <= i32::MAX
}

/// Chunk position of a global block position.
pub open spec fn chunk_pos_spec(p: IVec3) -> (int, int, int) {
    (chunk_coord_spec(p.x as int), chunk_coord_spec(p.y as int), chunk_coord_spec(p.z as int))
}

/// Local position of a global block position inside its chunk.
pub open spec fn local_pos_spec(p: IVec3) -> (int, int, int) {
    (local_coord_spec(p.x as int), local_coord_spec(p.y as int), local_coord_spec(p.z as int))
}

/// The coordinates of a vector as a triple of integers.
pub open spec fn triple(p: IVec3) -> (int, int, int) {
    (p.x as int, p.y as int, p.z as int)
}

/// True when every coordinate lies in `0..CHUNK_SIZE`.
pub open spec fn is_local_spec(p: IVec3) -> bool {
    &&& 0 <= p.x < CHUNK_SIZE
    &&& 0 <= p.y < CHUNK_SIZE
    &&& 0 <= p.z < CHUNK_SIZE
}

/// Chunk coordinate that contains the block coordinate `x`
/// (rounds towards negative infinity).
pub fn block_to_chunk_coord(x: i32) -> (r: i32)
    requires
        block_coord_ok(x as int),
    ensures
        r == chunk_coord_spec(x as int),
{
    if x >= 0 {
        x / CHUNK_SIZE
    } else {
        (x - (CHUNK_SIZE - 1)) / CHUNK_SIZE
    }
}

/// Global block position of the block at `local_block_pos` in the chunk `chunk_pos`.
pub fn to_global_pos(chunk_pos: &IVec3, local_block_pos: &IVec3) -> (r: IVec3)
    requires
        global_pos_fits(*chunk_pos, *local_block_pos),
    ensures
        triple(r) == global_pos_spec(*chunk_pos, *local_block_pos),
{
    IVec3 {
        x: chunk_pos.x * CHUNK_SIZE + local_block_pos.x,
        y: chunk_pos.y * CHUNK_SIZE + local_block_pos.y,
        z: chunk_pos.z * CHUNK_SIZE + local_block_pos.z,
    }
}

/// One coordinate of `to_local_pos`.
fn local_coord(v: i32) -> (r: i32)
    ensures
        r == local_coord_spec(v as int),
{
    ((v % CHUNK_SIZE) + CHUNK_SIZE) % CHUNK_SIZE
}

/// Position of a global block inside its chunk; every coordinate lies in `0..CHUNK_SIZE`.
pub fn to_local_pos(global_block_pos: &IVec3) -> (r: IVec3)
    ensures
        triple(r) == local_pos_spec(*global_block_pos),
        is_local_spec(r),
{
    IVec3 {
        x: local_coord(global_block_pos.x),
        y: local_coord(global_block_pos.y),
        z: local_coord(global_block_pos.z),
    }
}

/// Chunk position that contains a global block position.
pub fn global_block_to_chunk_pos(global_block_pos: &IVec3) -> (r: IVec3)
    requires
        block_pos_ok(*global_block_pos),
    ensures
        triple(r) == chunk_pos_spec(*global_block_pos),
{
    IVec3::new(
        block_to_chunk_coord(global_block_pos.x),
        block_to_chunk_coord(global_block_pos.y),
        block_to_chunk_coord(global_block_pos.z),
    )
}

/// Converts a global block position to its containing chunk position and the
/// block's local coordinates inside that chunk; returns `(chunk_pos, local_pos)`.
pub fn global_to_chunk_local(position: &IVec3) -> (r: (IVec3, IVec3))
    requires
        block_pos_ok(*position),
    ensures
        triple(r.0) == chunk_pos_spec(*position),
        triple(r.1) == local_pos_spec(*position),
        is_local_spec(r.1),
{
    let chunk_pos = global_block_to_chunk_pos(position);
    let local_pos = to_local_pos(position);
    (chunk_pos, local_pos)
}

/// Absolute value of an integer.
pub open spec fn abs_spec(v: int) -> int {
    if v < 0 { -v } else { v }
}

/// Absolute value of an `i32` other than `i32::MIN`.
fn abs_i32(v: i32) -> (r: i32)
    requires
        v != i32::MIN,
    ensures
        r == abs_spec(v as int),
{
    if v < 0 { -v } else { v }
}

/// True when the X and Z distances between the two chunks are both at most `radius`.
pub open spec fn chunk_in_radius_spec(player_pos: IVec3, chunk_pos: IVec3, radius: int) -> bool {
    abs_spec(player_pos.x - chunk_pos.x) <= radius && abs_spec(player_pos.z - chunk_pos.z) <= radius
}

/// Whether `chunk_pos` lies within `radius` chunks of `player_pos` on both horizontal axes.
pub fn chunk_in_radius(player_pos: &IVec3, chunk_pos: &IVec3, radius: i32) -> (r: bool)
    requires
        i32::MIN < player_pos.x - chunk_pos.x <= i32::MAX,
        i32::MIN < player_pos.z - chunk_pos.z <= i32::MAX,
    ensures
        r == chunk_in_radius_spec(*player_pos, *chunk_pos, radius as int),
{
    abs_i32(player_pos.x - chunk_pos.x) <= radius && abs_i32(player_pos.z - chunk_pos.z) <= radius
}

/// Unit offsets to the six face neighbours: +X, -X, +Y, -Y, +Z, -Z.
pub fn six_offsets() -> (r: [IVec3; 6])
    ensures
        r@ == six_offsets_spec(),
{
    [
        IVec3 { x: 1, y: 0, z: 0 },
        IVec3 { x: -1, y: 0, z: 0 },
        IVec3 { x: 0, y: 1, z: 0 },
        IVec3 { x: 0, y: -1, z: 0 },
        IVec3 { x: 0, y: 0, z: 1 },
        IVec3 { x: 0, y: 0, z: -1 },
    ]
}

/// The six unit face offsets, in the order +X, -X, +Y, -Y, +Z, -Z.
pub open spec fn six_offsets_spec() -> Seq<IVec3> {
    seq![
        IVec3 { x: 1, y: 0, z: 0 },
        IVec3 { x: -1i32, y: 0, z: 0 },
        IVec3 { x: 0, y: 1, z: 0 },
        IVec3 { x: 0, y: -1i32, z: 0 },
        IVec3 { x: 0, y: 0, z: 1 },
        IVec3 { x: 0, y: 0, z: -1i32 },
    ]
}

/// The four horizontal unit offsets, in the order +X, -X, +Z, -Z.
pub open spec fn lateral_neighbors_spec() -> Seq<IVec3> {
    seq![
        IVec3 { x: 1, y: 0, z: 0 },
        IVec3 { x: -1i32, y: 0, z: 0 },
        IVec3 { x: 0, y: 0, z: 1 },
        IVec3 { x: 0, y: 0, z: -1i32 },
    ]
}

/// Offsets to the four horizontal neighbours of a cell (used by lateral water flow).
pub fn lateral_neighbors() -> (r: [IVec3; 4])
    ensures
        r@ == lateral_neighbors_spec(),
{
    [
        IVec3 { x: 1, y: 0, z: 0 },
        IVec3 { x: -1, y: 0, z: 0 },
        IVec3 { x: 0, y: 0, z: 1 },
        IVec3 { x: 0, y: 0, z: -1 },
    ]
}

/// Offsets to all six face neighbours of a cell; the same list as `six_offsets`.
pub fn all_neighbors() -> (r: [IVec3; 6])
    ensures
        r@ == six_offsets_spec(),
{
    six_offsets()
}

/// Converts a global block position to coordinates relative to the origin of `chunk_pos`.
pub fn global_to_local(global_pos: IVec3, chunk_pos: IVec3) -> (r: IVec3)
    requires
        i32::MIN <= global_pos.x - chunk_pos.x * CHUNK_SIZE <= i32::MAX,
        i32::MIN <= global_pos.y - chunk_pos.y * CHUNK_SIZE <= i32::MAX,
        i32::MIN <= global_pos.z - chunk_pos.z * CHUNK_SIZE <= i32::MAX,
        i32::MIN <= chunk_pos.x * CHUNK_SIZE <= i32::MAX,
        i32::MIN <= chunk_pos.y * CHUNK_SIZE <= i32::MAX,
        i32::MIN <= chunk_pos.z * CHUNK_SIZE <= i32::MAX,
    ensures
        r.x == global_pos.x - chunk_pos.x * CHUNK_SIZE,
        r.y == global_pos.y - chunk_pos.y * CHUNK_SIZE,
        r.z == global_pos.z - chunk_pos.z * CHUNK_SIZE,
{
    IVec3::new(
        global_pos.x - chunk_pos.x * CHUNK_SIZE,
        global_pos.y - chunk_pos.y * CHUNK_SIZE,
        global_pos.z - chunk_pos.z * CHUNK_SIZE,
    )
}

/// Whether a local position lies within the bounds of a chunk.
pub fn is_valid_local_pos(pos: &IVec3) -> (r: bool)
    ensures
        r == is_local_spec(*pos),
{
    pos.x >= 0 && pos.x < CHUNK_SIZE && pos.y >= 0 && pos.y < CHUNK_SIZE && pos.z >= 0 && pos.z
        < CHUNK_SIZE
}

/// Splitting a global position into chunk and local parts and recombining
/// them gives the position back, and the local part is inside the chunk.
pub proof fn lemma_split_then_join(p: IVec3)
    ensures
        ({
            let (cx, cy, cz) = chunk_pos_spec(p);
            let (lx, ly, lz) = local_pos_spec(p);
            &&& cx * CHUNK_SIZE + lx == p.x
            &&& cy * CHUNK_SIZE + ly == p.y
            &&& cz * CHUNK_SIZE + lz == p.z
            &&& 0 <= lx < CHUNK_SIZE
            &&& 0 <= ly < CHUNK_SIZE
            &&& 0 <= lz < CHUNK_SIZE
        }),
{
}

/// Joining a chunk position with a position inside that chunk and splitting
/// the result gives back the same chunk and local positions.
pub proof fn lemma_join_then_split(chunk: IVec3, local: IVec3)
    requires
        is_local_spec(local),
    ensures
        ({
            let (x, y, z) = global_pos_spec(chunk, local);
            &&& chunk_coord_spec(x) == chunk.x && local_coord_spec(x) == local.x
            &&& chunk_coord_spec(y) == chunk.y && local_coord_spec(y) == local.y
            &&& chunk_coord_spec(z) == chunk.z && local_coord_spec(z) == local.z
        }),
{
    let (x, y, z) = global_pos_spec(chunk, local);
    assert(x == chunk.x * 16 + local.x);
    vstd::arithmetic::div_mod::lemma_fundamental_div_mod_converse(x, 16, chunk.x as int, local.x as int);
    vstd::arithmetic::div_mod::lemma_fundamental_div_mod_converse(y, 16, chunk.y as int, local.y as int);
    vstd::arithmetic::div_mod::lemma_fundamental_div_mod_converse(z, 16, chunk.z as int, local.z as int);
}

/// Relative to the chunk that contains it, a global position has the same
/// coordinates as its local position.
pub proof fn lemma_global_to_local_matches(p: IVec3)
    ensures
        ({
            let (cx, cy, cz) = chunk_pos_spec(p);
            local_pos_spec(p) == (p.x - cx * CHUNK_SIZE, p.y - cy * CHUNK_SIZE, p.z - cz * CHUNK_SIZE)
        }),
{
}

} // verus!
