//! Colours and their way into the frame.

use crate::scalar::{lemma_one_denotes_one, lemma_zero_denotes_zero, Scalar, ONE_BITS};
use vstd::arithmetic::power2::pow2;
use vstd::prelude::*;

verus! {

/// Red, green, blue and opacity; one is full strength.
#[derive(Clone, Copy, Debug, PartialEq, Eq, Structural)]
pub struct Color {
    pub r: Scalar,
    pub g: Scalar,
    pub b: Scalar,
    pub a: Scalar,
}

/// The flat tint of a surface.
#[derive(Clone, Copy, Debug, PartialEq, Eq, Structural)]
pub struct Material {
    pub color: Color,
}

/// A channel held to at most one: what lies below one stays as it is, and
/// everything else, what is not a number included, becomes one.
pub open spec fn clamp_channel(c: Scalar) -> Scalar {
    if c.spec_lt(Scalar { bits: ONE_BITS }) {
        c
    } else {
        Scalar { bits: ONE_BITS }
    }
}

/// A clamped channel is a number and does not exceed one, whatever went in.
pub proof fn lemma_clamped_channel_at_most_one(c: Scalar)
    ensures
        !clamp_channel(c).spec_is_nan(),
        clamp_channel(c).scaled() <= pow2(149),
{
    lemma_one_denotes_one();
}

fn clamp_one(c: Scalar) -> (r: Scalar)
    ensures
        r == clamp_channel(c),
{
    let one = Scalar::one();
    if c.lt(&one) {
        c
    } else {
        one
    }
}

impl Color {
    /// The four channels in the order in which a frame holds them.
    pub open spec fn channels(self) -> Seq<Scalar> {
        seq![self.r, self.g, self.b, self.a]
    }

    /// The colour with each channel held to at most one.
    pub open spec fn spec_clamp(self) -> Color {
        Color {
            r: clamp_channel(self.r),
            g: clamp_channel(self.g),
            b: clamp_channel(self.b),
            a: clamp_channel(self.a),
        }
    }

    /// The four bytes that stand for the colour in a frame.
    pub open spec fn spec_to_bytes(self) -> Seq<u8> {
        seq![
            self.r.spec_to_byte() as u8,
            self.g.spec_to_byte() as u8,
            self.b.spec_to_byte() as u8,
            self.a.spec_to_byte() as u8,
        ]
    }

    /// Transparent black: what a ray that meets nothing sees.
    pub fn zero() -> (r: Color)
        ensures
            r.r.bits == 0,
            r.g.bits == 0,
            r.b.bits == 0,
            r.a.bits == 0,
    {
        Color { r: Scalar::zero(), g: Scalar::zero(), b: Scalar::zero(), a: Scalar::zero() }
    }

    /// Holds each channel to at most one. Nothing is raised: a negative
    /// channel stays negative.
    pub fn clamp(&self) -> (r: Color)
        ensures
            r == self.spec_clamp(),
            forall|i: int|
                0 <= i < 4 ==> !(#[trigger] r.channels()[i]).spec_is_nan()
                    && r.channels()[i].scaled() <= pow2(149),
    {
        proof {
            lemma_clamped_channel_at_most_one(self.r);
            lemma_clamped_channel_at_most_one(self.g);
            lemma_clamped_channel_at_most_one(self.b);
            lemma_clamped_channel_at_most_one(self.a);
        }
        Color {
            r: clamp_one(self.r),
            g: clamp_one(self.g),
            b: clamp_one(self.b),
            a: clamp_one(self.a),
        }
    }

    /// The bytes of the colour: each channel rounded toward zero and held to
    /// 0..=255. The channels are taken as they are, on the scale of a byte.
    pub fn to_bytes(&self) -> (r: [u8; 4])
        ensures
            r@ == self.spec_to_bytes(),
    {
        [self.r.to_byte(), self.g.to_byte(), self.b.to_byte(), self.a.to_byte()]
    }
}

/// Transparent black is four zero bytes.
pub proof fn lemma_zero_color_bytes(c: Color)
    requires
        c.r.bits == 0,
        c.g.bits == 0,
        c.b.bits == 0,
        c.a.bits == 0,
    ensures
        c.spec_to_bytes() == seq![0u8, 0u8, 0u8, 0u8],
{
    lemma_zero_denotes_zero(Scalar { bits: 0 });
}

} // verus!
