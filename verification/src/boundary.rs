//! Faces of a chunk and the geometry of moving across them, used to exchange
//! water between neighbouring chunks.
use vstd::prelude::*;

use crate::coords::{is_local_spec, CHUNK_SIZE};
use crate::geometry::{IVec2, IVec3};

verus! {

/// One of the six faces of a chunk.
#[derive(Debug, Clone, Copy, PartialEq, Eq, Structural, Hash)]
pub enum BoundaryFace {
    /// Negative X face (local x = 0).
    NegX,
    /// Positive X face (local x = CHUNK_SIZE - 1).
    PosX,
    /// Negative Y face (local y = 0).
    NegY,
    /// Positive Y face (local y = CHUNK_SIZE - 1).
    PosY,
    /// Negative Z face (local z = 0).
    NegZ,
    /// Positive Z face (local z = CHUNK_SIZE - 1).
    PosZ,
}

/// Offset from a chunk to its neighbour across `face`.
pub open spec fn face_offset_spec(face: BoundaryFace) -> IVec3 {
    match face {
        BoundaryFace::NegX => IVec3 { x: -1i32, y: 0, z: 0 },
        BoundaryFace::PosX => IVec3 { x: 1, y: 0, z: 0 },
        BoundaryFace::NegY => IVec3 { x: 0, y: -1i32, z: 0 },
        BoundaryFace::PosY => IVec3 { x: 0, y: 1, z: 0 },
        BoundaryFace::NegZ => IVec3 { x: 0, y: 0, z: -1i32 },
        BoundaryFace::PosZ => IVec3 { x: 0, y: 0, z: 1 },
    }
}

/// The face on the other side of the same axis.
pub open spec fn opposite_spec(face: BoundaryFace) -> BoundaryFace {
    match face {
        BoundaryFace::NegX => BoundaryFace::PosX,
        BoundaryFace::PosX => BoundaryFace::NegX,
        BoundaryFace::NegY => BoundaryFace::PosY,
        BoundaryFace::PosY => BoundaryFace::NegY,
        BoundaryFace::NegZ => BoundaryFace::PosZ,
        BoundaryFace::PosZ => BoundaryFace::NegZ,
    }
}

/// Whether a local position lies on the layer of cells along `face`.
pub open spec fn on_boundary_spec(p: IVec3, face: BoundaryFace) -> bool {
    match face {
        BoundaryFace::NegX => p.x == 0,
        BoundaryFace::PosX => p.x == CHUNK_SIZE - 1,
        BoundaryFace::NegY => p.y == 0,
        BoundaryFace::PosY => p.y == CHUNK_SIZE - 1,
        BoundaryFace::NegZ => p.z == 0,
        BoundaryFace::PosZ => p.z == CHUNK_SIZE - 1,
    }
}

/// Two-dimensional position of a cell within a face: `(y, z)` on X faces,
/// `(x, z)` on Y faces and `(x, y)` on Z faces.
pub open spec fn face_pos_spec(p: IVec3, face: BoundaryFace) -> IVec2 {
    match face {
        BoundaryFace::NegX | BoundaryFace::PosX => IVec2 { x: p.y, y: p.z },
        BoundaryFace::NegY | BoundaryFace::PosY => IVec2 { x: p.x, y: p.z },
        BoundaryFace::NegZ | BoundaryFace::PosZ => IVec2 { x: p.x, y: p.y },
    }
}

/// Chunk offset and wrapped coordinate for one axis of `wrap_to_neighbor_chunk`.
pub open spec fn wrap_axis_spec(v: i32) -> (i32, i32) {
    if v < 0 {
        (-1i32, (CHUNK_SIZE - 1) as i32)
    } else if v >= CHUNK_SIZE {
        (1i32, 0i32)
    } else {
        (0i32, v)
    }
}

impl BoundaryFace {
    /// Offset to the neighbouring chunk in this direction.
    pub fn neighbor_chunk_offset(&self) -> (r: IVec3)
        ensures
            r == face_offset_spec(*self),
    {
        match self {
            BoundaryFace::NegX => IVec3::new(-1, 0, 0),
            BoundaryFace::PosX => IVec3::new(1, 0, 0),
            BoundaryFace::NegY => IVec3::new(0, -1, 0),
            BoundaryFace::PosY => IVec3::new(0, 1, 0),
            BoundaryFace::NegZ => IVec3::new(0, 0, -1),
            BoundaryFace::PosZ => IVec3::new(0, 0, 1),
        }
    }

    /// The opposite face (what the neighbour sees this chunk as).
    pub fn opposite(&self) -> (r: BoundaryFace)
        ensures
            r == opposite_spec(*self),
    {
        match self {
            BoundaryFace::NegX => BoundaryFace::PosX,
            BoundaryFace::PosX => BoundaryFace::NegX,
            BoundaryFace::NegY => BoundaryFace::PosY,
            BoundaryFace::PosY => BoundaryFace::NegY,
            BoundaryFace::NegZ => BoundaryFace::PosZ,
            BoundaryFace::PosZ => BoundaryFace::NegZ,
        }
    }

    /// All six boundary faces.
    pub fn all() -> (r: [BoundaryFace; 6])
        ensures
            r@ == seq![
                BoundaryFace::NegX,
                BoundaryFace::PosX,
                BoundaryFace::NegY,
                BoundaryFace::PosY,
                BoundaryFace::NegZ,
                BoundaryFace::PosZ,
            ],
    {
        [
            BoundaryFace::NegX,
            BoundaryFace::PosX,
            BoundaryFace::NegY,
            BoundaryFace::PosY,
            BoundaryFace::NegZ,
            BoundaryFace::PosZ,
        ]
    }

    /// The four horizontal faces (used by lateral flow).
    pub fn horizontal() -> (r: [BoundaryFace; 4])
        ensures
            r@ == seq![
                BoundaryFace::NegX,
                BoundaryFace::PosX,
                BoundaryFace::NegZ,
                BoundaryFace::PosZ,
            ],
    {
        [BoundaryFace::NegX, BoundaryFace::PosX, BoundaryFace::NegZ, BoundaryFace::PosZ]
    }
}

/// Converts a local position on a chunk boundary to its two-dimensional
/// position within `face`.
pub fn local_to_face_pos(local_pos: &IVec3, face: BoundaryFace) -> (r: IVec2)
    ensures
        r == face_pos_spec(*local_pos, face),
{
    match face {
        BoundaryFace::NegX | BoundaryFace::PosX => IVec2::new(local_pos.y, local_pos.z),
        BoundaryFace::NegY | BoundaryFace::PosY => IVec2::new(local_pos.x, local_pos.z),
        BoundaryFace::NegZ | BoundaryFace::PosZ => IVec2::new(local_pos.x, local_pos.y),
    }
}

/// Whether a local position lies on the given boundary face.
pub fn is_on_boundary(local_pos: &IVec3, face: BoundaryFace) -> (r: bool)
    ensures
        r == on_boundary_spec(*local_pos, face),
{
    match face {
        BoundaryFace::NegX => local_pos.x == 0,
        BoundaryFace::PosX => local_pos.x == CHUNK_SIZE - 1,
        BoundaryFace::NegY => local_pos.y == 0,
        BoundaryFace::PosY => local_pos.y == CHUNK_SIZE - 1,
        BoundaryFace::NegZ => local_pos.z == 0,
        BoundaryFace::PosZ => local_pos.z == CHUNK_SIZE - 1,
    }
}

/// Wraps a local position that may lie just outside the chunk: returns the
/// offset to the chunk that holds it and its local position in that chunk.
/// On each axis a negative coordinate maps to `CHUNK_SIZE - 1` of the previous
/// chunk and a coordinate `>= CHUNK_SIZE` to `0` of the next one.
pub fn wrap_to_neighbor_chunk(local_pos: IVec3) -> (r: (IVec3, IVec3))
    ensures
        (r.0.x, r.1.x) == wrap_axis_spec(local_pos.x),
        (r.0.y, r.1.y) == wrap_axis_spec(local_pos.y),
        (r.0.z, r.1.z) == wrap_axis_spec(local_pos.z),
{
    let mut chunk_offset = IVec3::zero();
    let mut wrapped_pos = local_pos;

    if local_pos.x < 0 {
        chunk_offset.x = -1;
        wrapped_pos.x = CHUNK_SIZE - 1;
    } else if local_pos.x >= CHUNK_SIZE {
        chunk_offset.x = 1;
        wrapped_pos.x = 0;
    }
    if local_pos.y < 0 {
        chunk_offset.y = -1;
        wrapped_pos.y = CHUNK_SIZE - 1;
    } else if local_pos.y >= CHUNK_SIZE {
        chunk_offset.y = 1;
        wrapped_pos.y = 0;
    }
    if local_pos.z < 0 {
        chunk_offset.z = -1;
        wrapped_pos.z = CHUNK_SIZE - 1;
    } else if local_pos.z >= CHUNK_SIZE {
        chunk_offset.z = 1;
        wrapped_pos.z = 0;
    }
    (chunk_offset, wrapped_pos)
}

/// Taking the opposite face twice gives the face back, a face is never its
/// own opposite, and opposite faces point to opposite neighbour chunks.
pub proof fn lemma_opposite_faces(face: BoundaryFace)
    ensures
        opposite_spec(opposite_spec(face)) == face,
        opposite_spec(face) != face,
        face_offset_spec(opposite_spec(face)).x == -face_offset_spec(face).x,
        face_offset_spec(opposite_spec(face)).y == -face_offset_spec(face).y,
        face_offset_spec(opposite_spec(face)).z == -face_offset_spec(face).z,
{
}

/// For a position at most one cell outside the chunk on each axis, the
/// neighbour chunk offset times the chunk size plus the wrapped position is
/// the position itself, and the wrapped position lies inside a chunk.
/// A position already inside the chunk is left unchanged with a zero offset.
pub proof fn lemma_wrap_recomposes(p: IVec3)
    requires
        -1 <= p.x <= CHUNK_SIZE,
        -1 <= p.y <= CHUNK_SIZE,
        -1 <= p.z <= CHUNK_SIZE,
    ensures
        ({
            let (ox, wx) = wrap_axis_spec(p.x);
            let (oy, wy) = wrap_axis_spec(p.y);
            let (oz, wz) = wrap_axis_spec(p.z);
            &&& ox * CHUNK_SIZE + wx == p.x
            &&& oy * CHUNK_SIZE + wy == p.y
            &&& oz * CHUNK_SIZE + wz == p.z
            &&& is_local_spec(IVec3 { x: wx, y: wy, z: wz })
            &&& is_local_spec(p) ==> (ox, oy, oz) == (0i32, 0i32, 0i32) && (wx, wy, wz) == (
                p.x,
                p.y,
                p.z,
            )
        }),
{
}

/// Stepping out of a chunk through one of its faces lands in the neighbour
/// chunk across that face, on the opposite face of that chunk, at the same
/// two-dimensional face position; a step from a cell not on the face stays
/// inside the chunk.
pub proof fn lemma_step_across_face(p: IVec3, face: BoundaryFace)
    requires
        is_local_spec(p),
    ensures
        ({
            let o = face_offset_spec(face);
            let q = IVec3 { x: (p.x + o.x) as i32, y: (p.y + o.y) as i32, z: (p.z + o.z) as i32 };
            let (ox, wx) = wrap_axis_spec(q.x);
            let (oy, wy) = wrap_axis_spec(q.y);
            let (oz, wz) = wrap_axis_spec(q.z);
            let w = IVec3 { x: wx, y: wy, z: wz };
            &&& on_boundary_spec(p, face) <==> !is_local_spec(q)
            &&& on_boundary_spec(p, face) ==> {
                &&& IVec3 { x: ox, y: oy, z: oz } == o
                &&& on_boundary_spec(w, opposite_spec(face))
                &&& face_pos_spec(w, opposite_spec(face)) == face_pos_spec(p, face)
            }
        }),
{
}

} // verus!
