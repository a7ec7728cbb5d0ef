//! Faces a ray can hit on a block.
use vstd::prelude::*;

use crate::geometry::IVec3;

verus! {

/// Face of a block hit by a ray, named by its outward direction.
#[derive(Debug, Clone, Copy, PartialEq, Eq, Structural)]
pub enum FaceDirection {
    PlusX,
    MinusX,
    PlusY,
    MinusY,
    PlusZ,
    MinusZ,
}

/// Outward unit normal of a face direction.
pub open spec fn face_direction_vec(f: FaceDirection) -> IVec3 {
    match f {
        FaceDirection::PlusX => IVec3 { x: 1, y: 0, z: 0 },
        FaceDirection::MinusX => IVec3 { x: -1i32, y: 0, z: 0 },
        FaceDirection::PlusY => IVec3 { x: 0, y: 1, z: 0 },
        FaceDirection::MinusY => IVec3 { x: 0, y: -1i32, z: 0 },
        FaceDirection::PlusZ => IVec3 { x: 0, y: 0, z: 1 },
        FaceDirection::MinusZ => IVec3 { x: 0, y: 0, z: -1i32 },
    }
}

/// Conversion of a face direction to its unit vector.
pub trait FaceDirectionExt {
    fn to_ivec3(&self) -> IVec3;
}

impl FaceDirectionExt for FaceDirection {
    /// The outward unit normal of the face.
    fn to_ivec3(&self) -> (r: IVec3)
        ensures
            r == face_direction_vec(*self),
    {
        match self {
            FaceDirection::PlusX => IVec3::new(1, 0, 0),
            FaceDirection::MinusX => IVec3::new(-1, 0, 0),
            FaceDirection::PlusY => IVec3::new(0, 1, 0),
            FaceDirection::MinusY => IVec3::new(0, -1, 0),
            FaceDirection::PlusZ => IVec3::new(0, 0, 1),
            FaceDirection::MinusZ => IVec3::new(0, 0, -1),
        }
    }
}

} // verus!
