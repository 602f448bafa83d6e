//! Positions, directions and rotations, each component a bit pattern.

use crate::scalar::Scalar;
use vstd::prelude::*;

verus! {

/// A position or direction in space.
#[derive(Clone, Copy, Debug, PartialEq, Eq, Structural)]
pub struct Vec3 {
    pub x: Scalar,
    pub y: Scalar,
    pub z: Scalar,
}

/// A rotation, as a quaternion.
#[derive(Clone, Copy, Debug, PartialEq, Eq, Structural)]
pub struct Quat {
    pub x: Scalar,
    pub y: Scalar,
    pub z: Scalar,
    pub w: Scalar,
}

/// A half-line: where it starts and the unit vector along which it runs.
#[derive(Clone, Copy, Debug, PartialEq, Eq, Structural)]
pub struct Ray {
    pub position: Vec3,
    pub direction: Vec3,
}

impl Vec3 {
    /// The vector that points the opposite way.
    pub open spec fn spec_neg(self) -> Vec3 {
        Vec3 { x: self.x.spec_neg(), y: self.y.spec_neg(), z: self.z.spec_neg() }
    }

    /// The vector that points the opposite way: each component changes its
    /// sign and keeps its magnitude.
    pub fn neg(&self) -> (r: Vec3)
        ensures
            r == self.spec_neg(),
            r.x.scaled() == -self.x.scaled(),
            r.y.scaled() == -self.y.scaled(),
            r.z.scaled() == -self.z.scaled(),
    {
        Vec3 { x: self.x.neg(), y: self.y.neg(), z: self.z.neg() }
    }
}

} // verus!
