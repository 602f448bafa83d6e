//! How far a ray is followed.

use crate::scalar::Scalar;
use vstd::arithmetic::power2::{lemma2_to64, lemma_pow2_adds, pow2};
use vstd::prelude::*;

verus! {

/// Number of reflections followed from each ray that leaves the camera.
pub const DEFAULT_MAX_BOUNCE: usize = 3;

/// Pattern of one half: the share of what a reflected ray sees that every
/// surface adds to its own colour.
pub const REFLECTANCE_BITS: u32 = 0x3f00_0000;

/// The reflections left for the ray that leaves a surface, or `None` where
/// the ray that met the surface was the last to be followed.
pub open spec fn spec_next_bounce(max_bounce: usize) -> Option<usize> {
    if max_bounce == 0 {
        None
    } else {
        Some((max_bounce - 1) as usize)
    }
}

/// The number of rays in the longest chain that starts with a ray allowed
/// `max_bounce` reflections.
pub open spec fn chain_length(max_bounce: usize) -> nat
    decreases max_bounce,
{
    match spec_next_bounce(max_bounce) {
        None => 1,
        Some(left) => 1 + chain_length(left),
    }
}

/// A ray allowed `max_bounce` reflections starts a chain of at most
/// `max_bounce + 1` rays; one allowed none is followed alone.
pub proof fn lemma_chain_length(max_bounce: usize)
    ensures
        chain_length(max_bounce) == max_bounce + 1,
        max_bounce == 0 ==> chain_length(max_bounce) == 1,
    decreases max_bounce,
{
    if max_bounce != 0 {
        lemma_chain_length((max_bounce - 1) as usize);
    }
}

/// The pattern `REFLECTANCE_BITS` denotes one half.
pub proof fn lemma_reflectance_is_half()
    ensures
        !(Scalar { bits: REFLECTANCE_BITS }).spec_is_nan(),
        2 * (Scalar { bits: REFLECTANCE_BITS }).scaled() == pow2(149),
{
    let half = Scalar { bits: REFLECTANCE_BITS };
    assert(half.exponent() == 126);
    assert(half.significand() == 0x80_0000);
    lemma_pow2_adds(24, 125);
    lemma2_to64();
}

/// Whether the ray that leaves a surface by reflection is followed, and
/// with how many reflections left: `None` iff `max_bounce` is 0.
pub fn next_bounce(max_bounce: usize) -> (r: Option<usize>)
    ensures
        r == spec_next_bounce(max_bounce),
        r is None <==> max_bounce == 0,
        r matches Some(left) ==> left + 1 == max_bounce,
{
    if max_bounce == 0 {
        None
    } else {
        Some(max_bounce - 1)
    }
}

/// The share of a reflected ray's colour that a surface adds to its own.
pub fn reflectance() -> (r: Scalar)
    ensures
        r.bits == REFLECTANCE_BITS,
{
    Scalar::from_bits(REFLECTANCE_BITS)
}

} // verus!
