//! Lights, and the rules by which one reaches a point of a surface.

use crate::scalar::{Scalar, HALF_PI_BITS};
use crate::vector::{Ray, Vec3};
use vstd::prelude::*;

verus! {

/// A light at a place, which fades with distance.
#[derive(Clone, Copy, Debug, PartialEq, Eq, Structural)]
pub struct SpotLight {
    pub position: Vec3,
    pub intensity: Scalar,
}

/// A light infinitely far away, which arrives along one direction.
#[derive(Clone, Copy, Debug, PartialEq, Eq, Structural)]
pub struct DirectionalLight {
    pub direction: Vec3,
    pub intensity: Scalar,
}

/// The lights a scene can hold.
#[derive(Clone, Copy, Debug, PartialEq, Eq, Structural)]
pub enum Light {
    Spot(SpotLight),
    Directional(DirectionalLight),
}

/// Whether a surface faces a light: the angle between its normal and the
/// direction to the light is a number below a quarter turn.
pub open spec fn faces_light(angle: Scalar) -> bool {
    angle.spec_lt(Scalar { bits: HALF_PI_BITS })
}

/// The ray from a point of a surface toward a light, if the surface faces it.
pub open spec fn light_ray(point: Vec3, toward: Vec3, angle: Scalar) -> Option<Ray> {
    if faces_light(angle) {
        Some(Ray { position: point, direction: toward })
    } else {
        None
    }
}

/// An angle that is not a number faces no light: a point at which the
/// direction to a light is undefined receives nothing from it.
pub proof fn lemma_undefined_angle_faces_no_light(point: Vec3, toward: Vec3, angle: Scalar)
    requires
        angle.spec_is_nan(),
    ensures
        light_ray(point, toward, angle) is None,
{
}

fn ray_if_facing(point: Vec3, toward: Vec3, angle: Scalar) -> (r: Option<Ray>)
    ensures
        r == light_ray(point, toward, angle),
{
    if angle.lt(&Scalar::half_pi()) {
        Some(Ray { position: point, direction: toward })
    } else {
        None
    }
}

impl SpotLight {
    /// The ray from `point` toward the light. `toward` is the unit vector
    /// from the point to the light, `angle` the angle between it and the
    /// surface normal at the point.
    pub fn get_light_ray(&self, point: Vec3, toward: Vec3, angle: Scalar) -> (r: Option<Ray>)
        ensures
            r == light_ray(point, toward, angle),
    {
        ray_if_facing(point, toward, angle)
    }

    /// Whether what a light ray met shadows the point it left:
    /// `light_distance` is the distance from the point to the light,
    /// `intersected_distance` the distance from the point to where the ray
    /// met a surface. The point is shadowed iff the light is strictly
    /// farther away.
    pub fn check_shadow(&self, light_distance: Scalar, intersected_distance: Scalar) -> (r: bool)
        ensures
            r == intersected_distance.spec_lt(light_distance),
    {
        intersected_distance.lt(&light_distance)
    }
}

impl DirectionalLight {
    /// The direction from any point to the light: against the direction
    /// along which the light arrives.
    pub fn toward_light(&self) -> (r: Vec3)
        ensures
            r == self.direction.spec_neg(),
    {
        self.direction.neg()
    }

    /// The ray from `point` toward the light. `angle` is the angle between
    /// the direction to the light and the surface normal at the point.
    pub fn get_light_ray(&self, point: Vec3, angle: Scalar) -> (r: Option<Ray>)
        ensures
            r == light_ray(point, self.direction.spec_neg(), angle),
    {
        ray_if_facing(point, self.toward_light(), angle)
    }

    /// Whether what a light ray met shadows the point it left: always, for
    /// nothing lies beyond a light that is infinitely far away.
    pub fn check_shadow(&self, light_distance: Scalar, intersected_distance: Scalar) -> (r: bool)
        ensures
            r,
    {
        true
    }
}

impl Light {
    /// The direction in which a light ray leaves a point: `toward` for a
    /// spot light, for which it depends on the point; a directional light
    /// has its own.
    pub open spec fn spec_toward(self, toward: Vec3) -> Vec3 {
        match self {
            Light::Spot(_) => toward,
            Light::Directional(light) => light.direction.spec_neg(),
        }
    }

    /// Whether what a light ray met shadows the point it left.
    pub open spec fn spec_check_shadow(
        self,
        light_distance: Scalar,
        intersected_distance: Scalar,
    ) -> bool {
        match self {
            Light::Spot(_) => intersected_distance.spec_lt(light_distance),
            Light::Directional(_) => true,
        }
    }

    /// Whether the light reaches a point. `occluder` is `None` when the ray
    /// from the point toward the light met no other object; otherwise it
    /// holds the distance from the point to the light and the distance from
    /// the point to where the ray met an object.
    pub open spec fn spec_has_light(self, occluder: Option<(Scalar, Scalar)>) -> bool {
        match occluder {
            None => true,
            Some((light_distance, intersected_distance)) => !self.spec_check_shadow(
                light_distance,
                intersected_distance,
            ),
        }
    }

    /// The ray from `point` toward the light, if the surface faces it.
    /// `angle` is the angle between the direction to the light and the
    /// surface normal at the point; `toward` is the unit vector from the
    /// point to a spot light, and is not read for a directional one.
    pub fn get_light_ray(&self, point: Vec3, toward: Vec3, angle: Scalar) -> (r: Option<Ray>)
        ensures
            r == light_ray(point, self.spec_toward(toward), angle),
    {
        match self {
            Light::Spot(light) => light.get_light_ray(point, toward, angle),
            Light::Directional(light) => light.get_light_ray(point, angle),
        }
    }

    /// Whether what a light ray met shadows the point it left.
    pub fn check_shadow(&self, light_distance: Scalar, intersected_distance: Scalar) -> (r: bool)
        ensures
            r == self.spec_check_shadow(light_distance, intersected_distance),
            self is Directional ==> r,
    {
        match self {
            Light::Spot(light) => light.check_shadow(light_distance, intersected_distance),
            Light::Directional(light) => light.check_shadow(light_distance, intersected_distance),
        }
    }

    /// Whether the light reaches a point: it does when nothing stands in
    /// the way, or when what stands there does not shadow the point.
    pub fn has_light(&self, occluder: Option<(Scalar, Scalar)>) -> (r: bool)
        ensures
            r == self.spec_has_light(occluder),
    {
        match occluder {
            None => true,
            Some((light_distance, intersected_distance)) => !self.check_shadow(
                light_distance,
                intersected_distance,
            ),
        }
    }
}

/// Behind any occluder a directional light is dark.
pub proof fn lemma_directional_light_is_blocked(light: Light, occluder: Option<(Scalar, Scalar)>)
    requires
        light is Directional,
        occluder is Some,
    ensures
        !light.spec_has_light(occluder),
{
}

} // verus!
