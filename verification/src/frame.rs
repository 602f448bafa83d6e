//! The rendered frame: rows from top to bottom, pixels from left to right,
//! four bytes to a pixel.

use crate::color::{lemma_zero_color_bytes, Color};
use crate::scalar::Scalar;
use vstd::arithmetic::power2::{lemma2_to64, lemma_pow2_adds, pow2};
use vstd::prelude::*;

verus! {

/// Bytes that one pixel takes in a frame: red, green, blue, opacity.
pub const BYTES_PER_PIXEL: usize = 4;

/// Pattern of 255: the factor that takes a channel to the scale of a byte.
pub const BYTE_SCALE_BITS: u32 = 0x437f_0000;

/// Place of the pixel in column `x` of row `y` among the pixels of a frame
/// `width` pixels wide.
pub open spec fn spec_pixel_index(x: int, y: int, width: int) -> int {
    y * width + x
}

/// The bytes of a frame whose pixels have the colours `colors`.
pub open spec fn frame_bytes(colors: Seq<Color>) -> Seq<u8> {
    Seq::new(4 * colors.len(), |i: int| colors[i / 4].spec_to_bytes()[i % 4])
}

/// Pixels are laid out row by row: a pixel of an earlier row, or of the
/// same row and an earlier column, comes first, and no two pixels share a
/// place.
pub proof fn lemma_row_major(x1: int, y1: int, x2: int, y2: int, width: int)
    requires
        0 <= x1 < width,
        0 <= x2 < width,
        0 <= y1,
        0 <= y2,
    ensures
        spec_pixel_index(x1, y1, width) < spec_pixel_index(x2, y2, width) <==> y1 < y2 || (y1
            == y2 && x1 < x2),
        spec_pixel_index(x1, y1, width) / width == y1,
        spec_pixel_index(x1, y1, width) % width == x1,
{
    assert(y1 < y2 ==> y1 * width + width <= y2 * width) by (nonlinear_arith)
        requires
            0 < width,
    ;
    assert(y2 < y1 ==> y2 * width + width <= y1 * width) by (nonlinear_arith)
        requires
            0 < width,
    ;
    vstd::arithmetic::div_mod::lemma_fundamental_div_mod_converse(
        y1 * width + x1,
        width,
        y1,
        x1,
    );
    assert(y1 * width == width * y1) by (nonlinear_arith);
}

/// The four bytes of the pixel in column `x` of row `y` are those of its
/// colour, at four times its place.
pub proof fn lemma_pixel_bytes(colors: Seq<Color>, x: int, y: int, width: int, height: int, c: int)
    requires
        0 <= x < width,
        0 <= y < height,
        0 <= c < 4,
        colors.len() == width * height,
    ensures
        0 <= spec_pixel_index(x, y, width) < colors.len(),
        frame_bytes(colors)[4 * spec_pixel_index(x, y, width) + c] == colors[spec_pixel_index(
            x,
            y,
            width,
        )].spec_to_bytes()[c],
{
    assert(0 <= y * width && y * width + width <= width * height) by (nonlinear_arith)
        requires
            0 <= y < height,
            0 < width,
    ;
}

/// Distinct pixels take distinct bytes: the four bytes of one pixel are
/// none of the four bytes of another.
pub proof fn lemma_pixels_do_not_overlap(
    x1: int,
    y1: int,
    c1: int,
    x2: int,
    y2: int,
    c2: int,
    width: int,
)
    requires
        0 <= x1 < width,
        0 <= x2 < width,
        0 <= y1,
        0 <= y2,
        0 <= c1 < 4,
        0 <= c2 < 4,
        x1 != x2 || y1 != y2,
    ensures
        4 * spec_pixel_index(x1, y1, width) + c1 != 4 * spec_pixel_index(x2, y2, width) + c2,
{
    lemma_row_major(x1, y1, x2, y2, width);
    lemma_row_major(x2, y2, x1, y1, width);
}

/// A frame of transparent black is all zero bytes.
pub proof fn lemma_black_frame(colors: Seq<Color>, i: int)
    requires
        forall|k: int|
            0 <= k < colors.len() ==> (#[trigger] colors[k]).r.bits == 0 && colors[k].g.bits == 0
                && colors[k].b.bits == 0 && colors[k].a.bits == 0,
        0 <= i < 4 * colors.len(),
    ensures
        frame_bytes(colors)[i] == 0,
{
    lemma_zero_color_bytes(colors[i / 4]);
}

/// The pattern `BYTE_SCALE_BITS` denotes 255.
pub proof fn lemma_byte_scale_is_255()
    ensures
        !(Scalar { bits: BYTE_SCALE_BITS }).spec_is_nan(),
        (Scalar { bits: BYTE_SCALE_BITS }).scaled() == 255 * pow2(149),
{
    let scale = Scalar { bits: BYTE_SCALE_BITS };
    assert(scale.exponent() == 134);
    assert(scale.significand() == 0xff_0000);
    lemma_pow2_adds(16, 133);
    lemma2_to64();
    assert(0xff_0000 * pow2(133) == 255 * (0x1_0000 * pow2(133))) by (nonlinear_arith);
}

/// The factor that takes a channel to the scale of a byte.
pub fn byte_scale() -> (r: Scalar)
    ensures
        r.bits == BYTE_SCALE_BITS,
{
    Scalar::from_bits(BYTE_SCALE_BITS)
}

/// Place of the pixel in column `x` of row `y` among the pixels of a frame.
pub fn pixel_index(x: u32, y: u32, width: u32, height: u32) -> (r: usize)
    requires
        x < width,
        y < height,
        width * height <= usize::MAX,
    ensures
        r == spec_pixel_index(x as int, y as int, width as int),
        r < width * height,
{
    assert(y * width + width <= width * height) by (nonlinear_arith)
        requires
            y < height,
    ;
    assert(0 <= y * width) by (nonlinear_arith);
    (y as usize) * (width as usize) + (x as usize)
}

/// Column and row of the pixel at place `index` of a frame `width` pixels
/// wide and `height` pixels high.
pub fn pixel_position(index: usize, width: u32, height: u32) -> (r: (u32, u32))
    requires
        index < width * height,
    ensures
        r.0 < width,
        r.1 < height,
        spec_pixel_index(r.0 as int, r.1 as int, width as int) == index,
{
    let w: usize = width as usize;
    let x: usize = index % w;
    let y: usize = index / w;
    proof {
        assert(width > 0) by (nonlinear_arith)
            requires
                index < width * height,
        ;
        vstd::arithmetic::div_mod::lemma_fundamental_div_mod(index as int, width as int);
        assert(y < height) by (nonlinear_arith)
            requires
                index == width * y + x,
                0 <= x,
                index < width * height,
                0 < width,
        ;
        assert(width * y == y * width) by (nonlinear_arith);
    }
    (x as u32, y as u32)
}

/// Writes a frame. `colors` holds the colour of each pixel on the scale of
/// a byte, row by row from the top, each row from the left. Each pixel takes
/// four bytes of `buffer`: red, green, blue and opacity, each channel
/// rounded toward zero and held to 0..=255.
pub fn render(colors: &[Color], buffer: &mut [u8], width: u32, height: u32)
    requires
        colors@.len() == width * height,
        old(buffer)@.len() == 4 * (width * height),
    ensures
        final(buffer)@ == frame_bytes(colors@),
{
    let n: usize = colors.len();
    let size: usize = buffer.len();
    let mut i: usize = 0;
    while i < n
        invariant
            n == colors@.len(),
            buffer@.len() == 4 * n,
            size == 4 * n,
            i <= n,
            forall|k: int| 0 <= k < 4 * i ==> buffer@[k] == frame_bytes(colors@)[k],
        decreases n - i,
    {
        let bytes = colors[i].to_bytes();
        let at: usize = i * 4;
        buffer[at] = bytes[0];
        buffer[at + 1] = bytes[1];
        buffer[at + 2] = bytes[2];
        buffer[at + 3] = bytes[3];
        i += 1;
    }
    assert(buffer@ =~= frame_bytes(colors@));
}

} // verus!
