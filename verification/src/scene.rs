//! The scene, and the search for the surface that a ray meets first.

use crate::color::Material;
use crate::light::Light;
use crate::scalar::{lemma_total_key_refines_order, lemma_zero_denotes_zero, Scalar};
use crate::shape::Shape;
use crate::vector::{Quat, Vec3};
use vstd::prelude::*;

verus! {

/// The eye: where it stands, how it is turned, its vertical field of view in
/// radians and the distance of its near plane.
#[derive(Clone, Copy, Debug, PartialEq, Eq, Structural)]
pub struct Camera {
    pub position: Vec3,
    pub rotation: Quat,
    pub fov_y: Scalar,
    pub near_z: Scalar,
}

/// Why a scene did not take an object.
#[derive(Clone, Copy, Debug, PartialEq, Eq, Structural)]
pub enum SceneError {
    /// The scene already holds an object with this identifier.
    DuplicateId(u32),
}

/// A camera, the objects it looks at and the lights that shine on them.
/// Each object has an identifier, a surface and a material; no two objects
/// of a scene share an identifier.
pub struct Scene {
    objects: Vec<(u32, Shape, Material)>,
    lights: Vec<Light>,
    camera: Camera,
}

/// What a scene holds.
pub struct SceneView {
    pub objects: Seq<(u32, Shape, Material)>,
    pub lights: Seq<Light>,
    pub camera: Camera,
}

/// No two objects share an identifier.
pub open spec fn distinct_ids(objects: Seq<(u32, Shape, Material)>) -> bool {
    forall|i: int, j: int| 0 <= i < j < objects.len() ==> objects[i].0 != objects[j].0
}

/// Some object has the identifier `id`.
pub open spec fn has_id(objects: Seq<(u32, Shape, Material)>, id: u32) -> bool {
    exists|i: int| 0 <= i < objects.len() && objects[i].0 == id
}

/// Whether object `i` can be what a ray meets: it is not the excluded one,
/// and the ray meets it at a distance that is a number and not negative.
/// `distances[i]` is the distance at which the ray meets object `i`, if it
/// meets it at all; an object without an entry counts as missed.
pub open spec fn eligible(
    objects: Seq<(u32, Shape, Material)>,
    distances: Seq<Option<Scalar>>,
    exclude_id: Option<u32>,
    i: int,
) -> bool {
    &&& 0 <= i < objects.len()
    &&& i < distances.len()
    &&& exclude_id != Some(objects[i].0)
    &&& distances[i] is Some
    &&& (Scalar { bits: 0 }).spec_le(distances[i]->0)
}

/// Whether object `i` is what the ray meets first: it is eligible, no
/// eligible object is nearer, and every eligible object before it is
/// strictly farther. Distances are compared in the total order of patterns.
pub open spec fn is_nearest(
    objects: Seq<(u32, Shape, Material)>,
    distances: Seq<Option<Scalar>>,
    exclude_id: Option<u32>,
    i: int,
) -> bool {
    let key = (distances[i]->0).spec_total_key();
    &&& eligible(objects, distances, exclude_id, i)
    &&& forall|j: int| #[trigger]
        eligible(objects, distances, exclude_id, j) ==> key <= (distances[j]->0).spec_total_key()
    &&& forall|j: int| #[trigger]
        eligible(objects, distances, exclude_id, j) && j < i ==> key < (
        distances[j]->0).spec_total_key()
}

/// At most one object is met first.
pub proof fn lemma_nearest_is_unique(
    objects: Seq<(u32, Shape, Material)>,
    distances: Seq<Option<Scalar>>,
    exclude_id: Option<u32>,
    i: int,
    j: int,
)
    requires
        is_nearest(objects, distances, exclude_id, i),
        is_nearest(objects, distances, exclude_id, j),
    ensures
        i == j,
{
}

/// What is met first is at the least distance: no eligible object is met at
/// a smaller number.
pub proof fn lemma_nearest_is_least(
    objects: Seq<(u32, Shape, Material)>,
    distances: Seq<Option<Scalar>>,
    exclude_id: Option<u32>,
    i: int,
    j: int,
)
    requires
        is_nearest(objects, distances, exclude_id, i),
        eligible(objects, distances, exclude_id, j),
    ensures
        0 <= (distances[i]->0).scaled() <= (distances[j]->0).scaled(),
{
    lemma_total_key_refines_order(distances[i]->0, distances[j]->0);
    lemma_total_key_refines_order(distances[j]->0, distances[i]->0);
    lemma_zero_denotes_zero(Scalar { bits: 0 });
}

/// Where identifiers are distinct, excluding the identifier of one object
/// leaves every other object as it was.
pub proof fn lemma_exclusion_spares_the_rest(
    objects: Seq<(u32, Shape, Material)>,
    distances: Seq<Option<Scalar>>,
    i: int,
    j: int,
)
    requires
        distinct_ids(objects),
        0 <= i < objects.len(),
        0 <= j < objects.len(),
        i != j,
    ensures
        !eligible(objects, distances, Some(objects[i].0), i),
        eligible(objects, distances, Some(objects[i].0), j) == eligible(
            objects,
            distances,
            None,
            j,
        ),
{
}

/// In a scene without objects a ray meets nothing.
pub proof fn lemma_empty_scene_meets_nothing(
    objects: Seq<(u32, Shape, Material)>,
    distances: Seq<Option<Scalar>>,
    exclude_id: Option<u32>,
)
    requires
        objects.len() == 0,
    ensures
        forall|i: int| !eligible(objects, distances, exclude_id, i),
{
}

impl View for Scene {
    type V = SceneView;

    closed spec fn view(&self) -> SceneView {
        SceneView { objects: self.objects@, lights: self.lights@, camera: self.camera }
    }
}

impl Scene {
    #[verifier::type_invariant]
    spec fn inv(self) -> bool {
        distinct_ids(self.objects@)
    }

    /// A scene with a camera and nothing else.
    pub fn new(camera: Camera) -> (r: Scene)
        ensures
            r@.objects.len() == 0,
            r@.lights.len() == 0,
            r@.camera == camera,
    {
        Scene { objects: Vec::new(), lights: Vec::new(), camera }
    }

    /// Whether the scene holds an object with the identifier `id`.
    pub fn has_object(&self, id: u32) -> (r: bool)
        ensures
            r == has_id(self@.objects, id),
    {
        let mut i: usize = 0;
        while i < self.objects.len()
            invariant
                i <= self.objects.len(),
                forall|j: int| 0 <= j < i ==> self.objects@[j].0 != id,
            decreases self.objects.len() - i,
        {
            if self.objects[i].0 == id {
                return true;
            }
            i += 1;
        }
        false
    }

    /// Adds an object behind those already there. An identifier that the
    /// scene already holds is refused, and the scene stays as it was.
    pub fn add_object(&mut self, id: u32, shape: Shape, material: Material) -> (r: Result<
        (),
        SceneError,
    >)
        ensures
            has_id(old(self)@.objects, id) ==> r == Err::<(), SceneError>(
                SceneError::DuplicateId(id),
            ) && final(self)@ == old(self)@,
            !has_id(old(self)@.objects, id) ==> r is Ok && final(self)@ == (SceneView {
                objects: old(self)@.objects.push((id, shape, material)),
                ..old(self)@
            }),
            distinct_ids(final(self)@.objects),
    {
        proof {
            use_type_invariant(&*self);
        }
        if self.has_object(id) {
            return Err(SceneError::DuplicateId(id));
        }
        let mut objects: Vec<(u32, Shape, Material)> = Vec::new();
        std::mem::swap(&mut objects, &mut self.objects);
        objects.push((id, shape, material));
        self.objects = objects;
        Ok(())
    }

    /// Adds a light behind those already there.
    pub fn add_light(&mut self, light: Light)
        ensures
            final(self)@ == (SceneView {
                lights: old(self)@.lights.push(light),
                ..old(self)@
            }),
    {
        proof {
            use_type_invariant(&*self);
        }
        let mut lights: Vec<Light> = Vec::new();
        std::mem::swap(&mut lights, &mut self.lights);
        lights.push(light);
        self.lights = lights;
    }

    /// The objects, in the order in which they were added.
    pub fn objects(&self) -> (r: &Vec<(u32, Shape, Material)>)
        ensures
            r@ == self@.objects,
            distinct_ids(r@),
    {
        proof {
            use_type_invariant(self);
        }
        &self.objects
    }

    /// The lights, in the order in which they were added.
    pub fn lights(&self) -> (r: &Vec<Light>)
        ensures
            r@ == self@.lights,
    {
        &self.lights
    }

    /// The camera.
    pub fn camera(&self) -> (r: &Camera)
        ensures
            *r == self@.camera,
    {
        &self.camera
    }
}

/// The object that a ray meets first. `distances[i]` is the distance at
/// which the ray meets object `i` of the scene, or `None` where it misses
/// it; an object without an entry counts as missed. The object with the
/// identifier `exclude_id` is passed over, and so is every object met at a
/// negative distance or at one that is not a number. Of those that are left
/// the nearest is returned, and of several equally near the first: its
/// distance, its identifier, its surface and its material. Distances are
/// compared in the total order of patterns, in which minus zero comes before
/// plus zero.
pub fn intersect_ray<'a>(
    scene: &'a Scene,
    distances: &[Option<Scalar>],
    exclude_id: Option<u32>,
) -> (r: Option<(Scalar, u32, &'a Shape, &'a Material)>)
    ensures
        match r {
            None => forall|i: int| !eligible(scene@.objects, distances@, exclude_id, i),
            Some((t, id, shape, material)) => exists|i: int|
                is_nearest(scene@.objects, distances@, exclude_id, i) && distances@[i] == Some(t)
                    && scene@.objects[i] == (id, *shape, *material),
        },
        r matches Some((t, id, _, _)) ==> exclude_id != Some(id) && !t.spec_is_nan() && t.scaled()
            >= 0,
        scene@.objects.len() == 0 ==> r is None,
{
    let objects = &scene.objects;
    let mut best: Option<usize> = None;
    let mut best_distance: Scalar = Scalar::zero();
    let mut best_key: i64 = 0;
    let mut i: usize = 0;
    while i < objects.len() && i < distances.len()
        invariant
            i <= objects.len(),
            i <= distances.len(),
            objects@ == scene@.objects,
            match best {
                None => forall|j: int|
                    0 <= j < i ==> !eligible(objects@, distances@, exclude_id, j),
                Some(b) => {
                    &&& b < i
                    &&& eligible(objects@, distances@, exclude_id, b as int)
                    &&& distances@[b as int] == Some(best_distance)
                    &&& best_key == best_distance.spec_total_key()
                    &&& forall|j: int|
                        0 <= j < i && #[trigger] eligible(objects@, distances@, exclude_id, j)
                            ==> best_key <= (distances@[j]->0).spec_total_key()
                    &&& forall|j: int|
                        0 <= j < b && #[trigger] eligible(objects@, distances@, exclude_id, j)
                            ==> best_key < (distances@[j]->0).spec_total_key()
                },
            },
        decreases objects.len() - i,
    {
        let excluded = match exclude_id {
            Some(id) => id == objects[i].0,
            None => false,
        };
        if !excluded {
            match distances[i] {
                Some(t) => {
                    if Scalar::zero().le(&t) {
                        let key: i64 = t.total_key();
                        if best.is_none() || key < best_key {
                            best = Some(i);
                            best_distance = t;
                            best_key = key;
                        }
                    }
                },
                None => {},
            }
        }
        i += 1;
    }
    match best {
        None => None,
        Some(b) => {
            proof {
                assert(is_nearest(scene@.objects, distances@, exclude_id, b as int));
                lemma_nearest_is_least(scene@.objects, distances@, exclude_id, b as int, b as int);
            }
            let object = &objects[b];
            Some((best_distance, object.0, &object.1, &object.2))
        },
    }
}

} // verus!
