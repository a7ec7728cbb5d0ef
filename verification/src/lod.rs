//! Level of detail used when rendering distant chunks.
//!
//! LOD 0 renders every block; LOD 1 renders each 2x2x2 group of blocks as one
//! block drawn at twice the size.
use vstd::prelude::*;

verus! {

/// Level of detail for chunk rendering.
#[derive(Debug, Clone, Copy, PartialEq, Eq, Structural, Hash)]
pub enum LodLevel {
    /// Full detail: one block is one rendered block.
    Lod0,
    /// Reduced detail: 2x2x2 blocks are one rendered block at twice the scale.
    Lod1,
}

impl Default for LodLevel {
    fn default() -> (r: Self)
        ensures
            r == LodLevel::Lod0,
    {
        LodLevel::Lod0
    }
}

/// Level of detail for a chunk at squared distance `d_sq`: full detail up to
/// and including the squared threshold, reduced beyond it.
pub open spec fn lod_for(d_sq: i32, threshold_sq: i32) -> LodLevel {
    if d_sq <= threshold_sq {
        LodLevel::Lod0
    } else {
        LodLevel::Lod1
    }
}

impl LodLevel {
    /// Factor by which blocks are scaled when rendered at this level (1 or 2).
    pub fn block_scale(&self) -> (r: i32)
        ensures
            r == (match *self {
                LodLevel::Lod0 => 1i32,
                LodLevel::Lod1 => 2i32,
            }),
    {
        match self {
            LodLevel::Lod0 => 1,
            LodLevel::Lod1 => 2,
        }
    }

    /// Level of detail for a chunk at squared distance `chunk_distance_sq`:
    /// full detail up to and including the squared threshold, reduced beyond it.
    pub fn from_distance_squared(chunk_distance_sq: i32, lod0_threshold_sq: i32) -> (r: Self)
        ensures
            r == lod_for(chunk_distance_sq, lod0_threshold_sq),
    {
        if chunk_distance_sq <= lod0_threshold_sq {
            LodLevel::Lod0
        } else {
            LodLevel::Lod1
        }
    }
}

/// The level of detail never decreases as the distance grows: a chunk
/// further away is rendered with at most the detail of a closer one.
pub proof fn lemma_lod_monotonic(near_sq: i32, far_sq: i32, threshold_sq: i32)
    requires
        near_sq <= far_sq,
    ensures
        lod_for(far_sq, threshold_sq) == LodLevel::Lod0 ==> lod_for(near_sq, threshold_sq)
            == LodLevel::Lod0,
        lod_for(near_sq, threshold_sq) == LodLevel::Lod1 ==> lod_for(far_sq, threshold_sq)
            == LodLevel::Lod1,
{
}

} // verus!
