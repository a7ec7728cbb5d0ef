//! Integer vectors used for block and chunk positions.
use vstd::prelude::*;

verus! {

/// A three-component integer vector (block or chunk position, or an offset).
#[derive(Clone, Copy, Debug, PartialEq, Eq, Structural, Hash)]
pub struct IVec3 {
    pub x: i32,
    pub y: i32,
    pub z: i32,
}

/// A two-component integer vector (position within a chunk face).
#[derive(Clone, Copy, Debug, PartialEq, Eq, Structural, Hash)]
pub struct IVec2 {
    pub x: i32,
    pub y: i32,
}

impl IVec3 {
    /// Builds a vector from its three components.
    pub fn new(x: i32, y: i32, z: i32) -> (r: IVec3)
        ensures
            r.x == x,
            r.y == y,
            r.z == z,
    {
        IVec3 { x, y, z }
    }

    /// The zero vector.
    pub fn zero() -> (r: IVec3)
        ensures
            r.x == 0,
            r.y == 0,
            r.z == 0,
    {
        IVec3 { x: 0, y: 0, z: 0 }
    }

    /// True when each component of `self + other` fits in an `i32`.
    pub open spec fn add_fits(self, other: IVec3) -> bool {
        &&& i32::MIN <= self.x + other.x <= i32::MAX
        &&& i32::MIN <= self.y + other.y <= i32::MAX
        &&& i32::MIN <= self.z + other.z <= i32::MAX
    }

    /// Component-wise sum.
    pub fn add(self, other: IVec3) -> (r: IVec3)
        requires
            self.add_fits(other),
        ensures
            r.x == self.x + other.x,
            r.y == self.y + other.y,
            r.z == self.z + other.z,
    {
        IVec3 { x: self.x + other.x, y: self.y + other.y, z: self.z + other.z }
    }

    /// Component-wise negation.
    pub fn neg(self) -> (r: IVec3)
        requires
            self.x != i32::MIN,
            self.y != i32::MIN,
            self.z != i32::MIN,
        ensures
            r.x == -self.x,
            r.y == -self.y,
            r.z == -self.z,
    {
        IVec3 { x: -self.x, y: -self.y, z: -self.z }
    }
}

impl IVec2 {
    /// Builds a vector from its two components.
    pub fn new(x: i32, y: i32) -> (r: IVec2)
        ensures
            r.x == x,
            r.y == y,
    {
        IVec2 { x, y }
    }
}

} // verus!
