use raycore::light::{DirectionalLight, Light, SpotLight};
use raycore::scalar::Scalar;
use raycore::vector::{Ray, Vec3};

fn scalar(x: f32) -> Scalar {
    Scalar::from_bits(x.to_bits())
}

fn vec3(x: f32, y: f32, z: f32) -> Vec3 {
    Vec3 { x: scalar(x), y: scalar(y), z: scalar(z) }
}

fn spot() -> SpotLight {
    SpotLight { position: vec3(0.0, 5.0, 10.0), intensity: scalar(1.0) }
}

fn directional() -> DirectionalLight {
    DirectionalLight { direction: vec3(1.0, 0.5, 5.0), intensity: scalar(1.0) }
}

fn distances() -> Vec<f32> {
    vec![
        0.0,
        -0.0,
        1.0,
        2.5,
        1.0e-30,
        1.0e30,
        -4.0,
        f32::INFINITY,
        f32::NEG_INFINITY,
        f32::NAN,
        f32::MIN_POSITIVE,
    ]
}

#[test]
fn directional_light_always_shadows() {
    let light = directional();
    for &a in &distances() {
        for &b in &distances() {
            assert!(light.check_shadow(scalar(a), scalar(b)));
            assert!(Light::Directional(light).check_shadow(scalar(a), scalar(b)));
        }
    }
}

#[test]
fn spot_light_shadows_iff_it_is_strictly_farther_than_the_occluder() {
    let light = spot();
    for &to_light in &distances() {
        for &to_occluder in &distances() {
            let expected = to_light > to_occluder;
            assert_eq!(light.check_shadow(scalar(to_light), scalar(to_occluder)), expected);
            assert_eq!(
                Light::Spot(light).check_shadow(scalar(to_light), scalar(to_occluder)),
                expected
            );
        }
    }
}

#[test]
fn spot_light_at_the_distance_of_the_occluder_is_not_shadowed() {
    assert!(!spot().check_shadow(scalar(3.0), scalar(3.0)));
    assert!(spot().check_shadow(scalar(3.0), scalar(2.999_999_8)));
    assert!(!spot().check_shadow(scalar(3.0), scalar(3.000_000_2)));
}

#[test]
fn light_ray_leaves_a_surface_that_faces_the_light() {
    let point = vec3(1.0, 2.0, 3.0);
    let toward = vec3(0.0, 1.0, 0.0);
    let ray = spot().get_light_ray(point, toward, scalar(0.25));
    assert_eq!(ray, Some(Ray { position: point, direction: toward }));
}

#[test]
fn light_ray_needs_an_angle_below_a_quarter_turn() {
    let point = vec3(1.0, 2.0, 3.0);
    let toward = vec3(0.0, 1.0, 0.0);
    let quarter = std::f32::consts::PI / 2.0;
    let below = f32::from_bits(quarter.to_bits() - 1);
    let above = f32::from_bits(quarter.to_bits() + 1);
    let light = spot();
    assert!(light.get_light_ray(point, toward, scalar(0.0)).is_some());
    assert!(light.get_light_ray(point, toward, scalar(below)).is_some());
    assert!(light.get_light_ray(point, toward, scalar(quarter)).is_none());
    assert!(light.get_light_ray(point, toward, scalar(above)).is_none());
    assert!(light.get_light_ray(point, toward, scalar(std::f32::consts::PI)).is_none());
}

#[test]
fn light_ray_of_an_undefined_angle_is_none() {
    let point = vec3(0.0, 5.0, 10.0);
    let toward = vec3(f32::NAN, f32::NAN, f32::NAN);
    assert_eq!(spot().get_light_ray(point, toward, scalar(f32::NAN)), None);
    assert_eq!(directional().get_light_ray(point, scalar(f32::NAN)), None);
    assert_eq!(Light::Spot(spot()).get_light_ray(point, toward, scalar(f32::NAN)), None);
}

#[test]
fn directional_light_ray_runs_against_the_light() {
    let light = directional();
    let point = vec3(4.0, 4.0, 4.0);
    assert_eq!(light.toward_light(), vec3(-1.0, -0.5, -5.0));
    let ray = light.get_light_ray(point, scalar(0.5));
    assert_eq!(ray, Some(Ray { position: point, direction: vec3(-1.0, -0.5, -5.0) }));
}

#[test]
fn light_dispatches_to_its_kind() {
    let point = vec3(4.0, 4.0, 4.0);
    let toward = vec3(0.0, 0.0, 1.0);
    let from_spot = Light::Spot(spot()).get_light_ray(point, toward, scalar(0.5));
    assert_eq!(from_spot, Some(Ray { position: point, direction: toward }));
    let from_directional = Light::Directional(directional()).get_light_ray(point, toward, scalar(0.5));
    assert_eq!(from_directional, Some(Ray { position: point, direction: vec3(-1.0, -0.5, -5.0) }));
    assert_eq!(Light::Directional(directional()).get_light_ray(point, toward, scalar(2.0)), None);
}

#[test]
fn vector_negation_changes_each_sign() {
    assert_eq!(vec3(1.0, -2.0, 0.0).neg(), vec3(-1.0, 2.0, -0.0));
    assert_eq!(vec3(1.0, -2.0, 0.0).neg().neg(), vec3(1.0, -2.0, 0.0));
}

#[test]
fn a_light_with_nothing_in_the_way_reaches_the_point() {
    assert!(Light::Spot(spot()).has_light(None));
    assert!(Light::Directional(directional()).has_light(None));
}

#[test]
fn a_directional_light_is_blocked_by_any_occluder() {
    let light = Light::Directional(directional());
    for &a in &distances() {
        for &b in &distances() {
            assert!(!light.has_light(Some((scalar(a), scalar(b)))));
        }
    }
}

#[test]
fn a_spot_light_is_blocked_only_by_what_stands_before_it() {
    let light = Light::Spot(spot());
    assert!(!light.has_light(Some((scalar(5.0), scalar(2.0)))));
    assert!(light.has_light(Some((scalar(5.0), scalar(5.0)))));
    assert!(light.has_light(Some((scalar(5.0), scalar(8.0)))));
    assert!(light.has_light(Some((scalar(f32::NAN), scalar(8.0)))));
}
