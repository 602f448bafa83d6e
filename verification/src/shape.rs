//! Surfaces that a ray can meet.

use crate::scalar::Scalar;
use crate::vector::Vec3;
use vstd::prelude::*;

verus! {

/// A sphere: its centre and its radius.
#[derive(Clone, Copy, Debug, PartialEq, Eq, Structural)]
pub struct Sphere {
    pub position: Vec3,
    pub radius: Scalar,
}

/// The surfaces a scene can hold.
#[derive(Clone, Copy, Debug, PartialEq, Eq, Structural)]
pub enum Shape {
    Sphere(Sphere),
}

/// Where along a ray a sphere is met, from the solved quadratic of ray and
/// sphere: nowhere when the discriminant is negative, otherwise at the
/// smaller of the two roots, whatever its sign.
pub open spec fn nearer_root(discriminant: Scalar, t1: Scalar, t2: Scalar) -> Option<Scalar> {
    if discriminant.spec_lt(Scalar { bits: 0 }) {
        None
    } else {
        Some(t1.spec_min(t2))
    }
}

impl Sphere {
    /// The distance along a ray at which the sphere is met. The caller has
    /// solved the quadratic of ray and sphere: `discriminant` is its
    /// discriminant, `t1` and `t2` its roots, which matter only where the
    /// discriminant is not negative. A root behind the ray's start is
    /// reported like any other.
    pub fn intersect(&self, discriminant: Scalar, t1: Scalar, t2: Scalar) -> (r: Option<Scalar>)
        ensures
            r == nearer_root(discriminant, t1, t2),
            r is None <==> discriminant.spec_lt(Scalar { bits: 0 }),
    {
        if discriminant.lt(&Scalar::zero()) {
            None
        } else {
            Some(t1.min(&t2))
        }
    }
}

impl Shape {
    /// The distance along a ray at which the surface is met; see
    /// [`Sphere::intersect`].
    pub fn intersect(&self, discriminant: Scalar, t1: Scalar, t2: Scalar) -> (r: Option<Scalar>)
        ensures
            r == nearer_root(discriminant, t1, t2),
            r is None <==> discriminant.spec_lt(Scalar { bits: 0 }),
    {
        match self {
            Shape::Sphere(sphere) => sphere.intersect(discriminant, t1, t2),
        }
    }
}

} // verus!
