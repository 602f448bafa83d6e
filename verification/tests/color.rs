use glam::Vec4;
use raycore::color::{Color, Material};
use raycore::scalar::Scalar;

fn scalar(x: f32) -> Scalar {
    Scalar::from_bits(x.to_bits())
}

fn color(r: f32, g: f32, b: f32, a: f32) -> Color {
    Color { r: scalar(r), g: scalar(g), b: scalar(b), a: scalar(a) }
}

fn channels(c: Color) -> [u32; 4] {
    [c.r.to_bits(), c.g.to_bits(), c.b.to_bits(), c.a.to_bits()]
}

#[test]
fn zero_is_transparent_black() {
    assert_eq!(Color::zero(), color(0.0, 0.0, 0.0, 0.0));
    assert_eq!(Color::zero().to_bytes(), [0, 0, 0, 0]);
}

#[test]
fn clamp_holds_each_channel_to_one() {
    let clamped = color(0.25, 1.0, 1.5, 3.0e10).clamp();
    assert_eq!(clamped, color(0.25, 1.0, 1.0, 1.0));
}

#[test]
fn clamp_raises_nothing() {
    let clamped = color(-0.5, -0.0, 0.0, f32::NEG_INFINITY).clamp();
    assert_eq!(clamped, color(-0.5, -0.0, 0.0, f32::NEG_INFINITY));
}

#[test]
fn clamp_turns_what_is_not_a_number_into_one() {
    let clamped = color(f32::NAN, f32::INFINITY, 0.5, -f32::NAN).clamp();
    assert_eq!(clamped, color(1.0, 1.0, 0.5, 1.0));
}

#[test]
fn clamp_never_leaves_a_channel_above_one() {
    let mut state: u32 = 0x9e37_79b9;
    for _ in 0..2000 {
        let mut bits = [0u32; 4];
        for slot in bits.iter_mut() {
            state = state.wrapping_mul(1_664_525).wrapping_add(1_013_904_223);
            *slot = state;
        }
        let c = Color {
            r: Scalar::from_bits(bits[0]),
            g: Scalar::from_bits(bits[1]),
            b: Scalar::from_bits(bits[2]),
            a: Scalar::from_bits(bits[3]),
        };
        for channel in channels(c.clamp()) {
            assert!(f32::from_bits(channel) <= 1.0);
        }
    }
}

#[test]
fn clamp_agrees_with_the_componentwise_minimum_with_one() {
    let values = [
        0.0,
        -0.0,
        0.3,
        0.999_999_94,
        1.0,
        1.000_000_1,
        2.0,
        -7.0,
        f32::INFINITY,
        f32::NEG_INFINITY,
        f32::NAN,
        f32::MIN_POSITIVE,
    ];
    for &x in &values {
        for &y in &values {
            let v = Vec4::new(x, y, y, x).min(Vec4::new(1.0, 1.0, 1.0, 1.0));
            let c = color(x, y, y, x).clamp();
            assert_eq!(
                channels(c),
                [v.x.to_bits(), v.y.to_bits(), v.z.to_bits(), v.w.to_bits()],
                "clamp of {x} and {y}"
            );
        }
    }
}

#[test]
fn to_bytes_rounds_toward_zero_and_saturates() {
    assert_eq!(color(0.0, 127.9, 255.0, 300.0).to_bytes(), [0, 127, 255, 255]);
    assert_eq!(color(-1.0, 0.99, 1.0, f32::NAN).to_bytes(), [0, 0, 1, 0]);
}

#[test]
fn to_bytes_keeps_the_order_of_the_channels() {
    assert_eq!(color(10.0, 20.0, 30.0, 40.0).to_bytes(), [10, 20, 30, 40]);
}

#[test]
fn material_holds_its_color() {
    let tint = color(1.0, 0.7, 0.2, 1.0);
    let material = Material { color: tint };
    let copy = material;
    assert_eq!(copy.color, tint);
    assert_eq!(material, copy);
}
