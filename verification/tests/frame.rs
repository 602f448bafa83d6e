use raycore::color::Color;
use raycore::frame::{byte_scale, pixel_index, pixel_position, render, BYTES_PER_PIXEL, BYTE_SCALE_BITS};
use raycore::scalar::Scalar;

fn scalar(x: f32) -> Scalar {
    Scalar::from_bits(x.to_bits())
}

fn color(r: f32, g: f32, b: f32, a: f32) -> Color {
    Color { r: scalar(r), g: scalar(g), b: scalar(b), a: scalar(a) }
}

#[test]
fn a_pixel_takes_four_bytes() {
    assert_eq!(BYTES_PER_PIXEL, 4);
}

#[test]
fn byte_scale_is_255() {
    assert_eq!(byte_scale(), scalar(255.0));
    assert_eq!(BYTE_SCALE_BITS, 255.0f32.to_bits());
}

#[test]
fn pixel_index_counts_row_by_row() {
    assert_eq!(pixel_index(0, 0, 5, 3), 0);
    assert_eq!(pixel_index(4, 0, 5, 3), 4);
    assert_eq!(pixel_index(0, 1, 5, 3), 5);
    assert_eq!(pixel_index(2, 1, 5, 3), 7);
    assert_eq!(pixel_index(4, 2, 5, 3), 14);
}

#[test]
fn pixel_position_is_the_inverse_of_pixel_index() {
    let (width, height) = (7u32, 4u32);
    let mut expected = 0usize;
    for y in 0..height {
        for x in 0..width {
            let index = pixel_index(x, y, width, height);
            assert_eq!(index, expected);
            assert_eq!(pixel_position(index, width, height), (x, y));
            expected += 1;
        }
    }
}

#[test]
fn pixel_position_of_given_places() {
    assert_eq!(pixel_position(0, 5, 3), (0, 0));
    assert_eq!(pixel_position(7, 5, 3), (2, 1));
    assert_eq!(pixel_position(14, 5, 3), (4, 2));
    assert_eq!(pixel_position(2, 1, 3), (0, 2));
}

#[test]
fn render_writes_four_bytes_per_pixel_in_order() {
    let colors = vec![
        color(1.0, 2.0, 3.0, 4.0),
        color(10.5, 20.5, 30.5, 40.5),
        color(255.0, 256.0, -1.0, f32::NAN),
        color(0.0, 0.9, 254.9, 255.9),
        color(100.0, 101.0, 102.0, 103.0),
        color(200.0, 201.0, 202.0, 203.0),
    ];
    let mut buffer = vec![0xaau8; 24];
    render(&colors, &mut buffer, 3, 2);
    assert_eq!(
        buffer,
        vec![
            1, 2, 3, 4, 10, 20, 30, 40, 255, 255, 0, 0, 0, 0, 254, 255, 100, 101, 102, 103, 200,
            201, 202, 203
        ]
    );
}

#[test]
fn render_places_each_pixel_at_four_times_its_index() {
    let (width, height) = (4u32, 3u32);
    let colors: Vec<Color> = (0..12).map(|i| color(i as f32, 0.0, 0.0, 255.0)).collect();
    let mut buffer = vec![7u8; 48];
    render(&colors, &mut buffer, width, height);
    for y in 0..height {
        for x in 0..width {
            let at = 4 * pixel_index(x, y, width, height);
            assert_eq!(buffer[at..at + 4], [(y * width + x) as u8, 0, 0, 255]);
        }
    }
}

#[test]
fn render_of_transparent_black_is_all_zero() {
    let colors = vec![Color::zero(); 35];
    let mut buffer = vec![0xffu8; 140];
    render(&colors, &mut buffer, 7, 5);
    assert!(buffer.iter().all(|&byte| byte == 0));
}

#[test]
fn render_of_an_empty_frame_writes_nothing() {
    let mut buffer: Vec<u8> = Vec::new();
    render(&[], &mut buffer, 0, 0);
    assert!(buffer.is_empty());
    render(&[], &mut buffer, 0, 9);
    assert!(buffer.is_empty());
}
