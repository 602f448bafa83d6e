//! Single-precision numbers as bit patterns.
//!
//! The tracer's arithmetic is done outside this crate; what crosses the
//! boundary is the 32-bit pattern of each number. Comparisons, selection and
//! the conversion to bytes are exact on patterns, and they are defined here
//! against the number that a pattern denotes.

use vstd::arithmetic::div_mod::{
    lemma_basic_div, lemma_div_by_multiple, lemma_div_is_ordered,
    lemma_div_multiples_vanish_quotient,
};
use vstd::arithmetic::mul::{lemma_mul_inequality, lemma_mul_strict_inequality};
use vstd::arithmetic::power2::{
    lemma2_to64, lemma_pow2_adds, lemma_pow2_pos, lemma_pow2_strictly_increases, pow2,
};
use vstd::bits::lemma_u32_shr_is_div;
use vstd::prelude::*;

verus! {

/// Pattern whose only set bit is the sign.
pub const SIGN_BIT: u32 = 0x8000_0000;

/// Pattern of positive infinity; every larger magnitude is not a number.
pub const INFINITY_BITS: u32 = 0x7f80_0000;

/// Weight of the lowest exponent bit, and of the implicit leading digit.
pub const HIDDEN_BIT: u32 = 0x0080_0000;

/// Pattern of the number one.
pub const ONE_BITS: u32 = 0x3f80_0000;

/// Pattern of the single-precision number nearest to a quarter turn.
pub const HALF_PI_BITS: u32 = 0x3fc9_0fdb;

/// A single-precision binary floating-point number, held as its bit pattern.
#[derive(Clone, Copy, Debug, PartialEq, Eq, Structural)]
pub struct Scalar {
    pub bits: u32,
}

impl Scalar {
    /// The pattern without its sign bit.
    pub open spec fn magnitude(self) -> int {
        self.bits as int % 0x8000_0000
    }

    /// Whether the sign bit is set.
    pub open spec fn sign_set(self) -> bool {
        self.bits >= 0x8000_0000
    }

    /// Whether the pattern denotes no number.
    pub open spec fn spec_is_nan(self) -> bool {
        self.magnitude() > 0x7f80_0000
    }

    /// The biased exponent field.
    pub open spec fn exponent(self) -> int {
        self.magnitude() / 0x80_0000
    }

    /// The fraction field.
    pub open spec fn fraction(self) -> int {
        self.magnitude() % 0x80_0000
    }

    /// The digits of the number, with the implicit leading digit of a normal
    /// number.
    pub open spec fn significand(self) -> int {
        if self.exponent() == 0 {
            self.fraction()
        } else {
            0x80_0000 + self.fraction()
        }
    }

    /// The power of two by which the digits are scaled, counted from the
    /// weight of the smallest positive number.
    pub open spec fn shift(self) -> nat {
        if self.exponent() == 0 {
            0
        } else {
            (self.exponent() - 1) as nat
        }
    }

    /// The absolute value of the number, in units of 2^-149.
    pub open spec fn abs_scaled(self) -> int {
        self.significand() * pow2(self.shift())
    }

    /// The number that the pattern denotes, in units of 2^-149, the smallest
    /// positive single-precision number: an integer for every finite pattern.
    /// The infinities stand at plus and minus 2^277, beyond every finite
    /// number. Of a pattern that is not a number the result means nothing.
    pub open spec fn scaled(self) -> int {
        if self.sign_set() {
            -self.abs_scaled()
        } else {
            self.abs_scaled()
        }
    }

    /// `self < other` as numbers: false when either is not a number.
    pub open spec fn spec_lt(self, other: Scalar) -> bool {
        !self.spec_is_nan() && !other.spec_is_nan() && self.scaled() < other.scaled()
    }

    /// `self <= other` as numbers: false when either is not a number.
    pub open spec fn spec_le(self, other: Scalar) -> bool {
        !self.spec_is_nan() && !other.spec_is_nan() && self.scaled() <= other.scaled()
    }

    /// Position in the total order of patterns: negative numbers below
    /// positive ones, minus zero directly below plus zero, and patterns that
    /// are not numbers at the two ends.
    pub open spec fn spec_total_key(self) -> int {
        if self.sign_set() {
            -1 - self.magnitude()
        } else {
            self.magnitude()
        }
    }

    /// The pattern with the opposite sign.
    pub open spec fn spec_neg(self) -> Scalar {
        if self.sign_set() {
            Scalar { bits: (self.bits - 0x8000_0000) as u32 }
        } else {
            Scalar { bits: (self.bits + 0x8000_0000) as u32 }
        }
    }

    /// The smaller of two numbers. One that is not a number gives way to the
    /// other; of two equal numbers the first is taken.
    pub open spec fn spec_min(self, other: Scalar) -> Scalar {
        if self.spec_is_nan() {
            other
        } else if other.spec_is_nan() {
            self
        } else if other.scaled() < self.scaled() {
            other
        } else {
            self
        }
    }

    /// The number rounded toward zero and held to the range of a byte.
    /// What is not a number gives 0.
    pub open spec fn spec_to_byte(self) -> int {
        if self.spec_is_nan() || self.scaled() <= 0 {
            0
        } else if self.scaled() / (pow2(149) as int) >= 255 {
            255
        } else {
            self.scaled() / (pow2(149) as int)
        }
    }

    /// Signed magnitude: orders the patterns that are numbers as the numbers
    /// themselves are ordered.
    pub open spec fn spec_rank(self) -> int {
        if self.sign_set() {
            -self.magnitude()
        } else {
            self.magnitude()
        }
    }
}

/// Powers of two do not decrease with the exponent.
proof fn lemma_pow2_increases(e1: nat, e2: nat)
    requires
        e1 <= e2,
    ensures
        pow2(e1) <= pow2(e2),
{
    if e1 < e2 {
        lemma_pow2_strictly_increases(e1, e2);
    }
}

/// A larger magnitude denotes a larger absolute value.
pub proof fn lemma_magnitude_orders_abs(a: Scalar, b: Scalar)
    requires
        a.magnitude() < b.magnitude(),
    ensures
        0 <= a.abs_scaled() < b.abs_scaled(),
{
    let sa = a.significand();
    let sb = b.significand();
    let pa = pow2(a.shift()) as int;
    let pb = pow2(b.shift()) as int;
    lemma_pow2_pos(a.shift());
    lemma_pow2_pos(b.shift());
    assert(0 <= sa * pa) by (nonlinear_arith)
        requires
            0 <= sa,
            0 < pa,
    ;
    if a.exponent() == b.exponent() {
        assert(sa * pa < sb * pb) by (nonlinear_arith)
            requires
                sa < sb,
                pa == pb,
                0 < pa,
        ;
    } else {
        let bound = if a.exponent() == 0 {
            1
        } else {
            2 * pa
        };
        lemma2_to64();
        assert(bound <= pb) by {
            if a.exponent() != 0 {
                lemma_pow2_adds(1, a.shift());
                lemma_pow2_increases(a.exponent() as nat, b.shift());
            }
        }
        assert(sa * pa < 0x80_0000 * bound) by (nonlinear_arith)
            requires
                0 <= sa,
                0 < pa,
                bound == 1 ==> sa < 0x80_0000 && pa == 1,
                bound != 1 ==> sa < 0x100_0000 && bound == 2 * pa,
        ;
        assert(0x80_0000 * bound <= sb * pb) by (nonlinear_arith)
            requires
                0x80_0000 <= sb,
                0 < bound <= pb,
        ;
    }
}

/// Signed magnitudes are ordered as the numbers they denote, and two patterns
/// denote the same number exactly when their signed magnitudes agree.
pub proof fn lemma_rank_orders_scaled(a: Scalar, b: Scalar)
    ensures
        a.spec_rank() < b.spec_rank() <==> a.scaled() < b.scaled(),
        a.spec_rank() == b.spec_rank() <==> a.scaled() == b.scaled(),
{
    let zero = Scalar { bits: 0 };
    assert(zero.abs_scaled() == 0) by {
        assert(zero.significand() == 0);
        assert(0 * pow2(zero.shift()) == 0) by (nonlinear_arith);
    }
    if a.magnitude() > 0 {
        lemma_magnitude_orders_abs(zero, a);
    } else {
        assert(a.abs_scaled() == zero.abs_scaled());
    }
    if b.magnitude() > 0 {
        lemma_magnitude_orders_abs(zero, b);
    } else {
        assert(b.abs_scaled() == zero.abs_scaled());
    }
    if a.magnitude() < b.magnitude() {
        lemma_magnitude_orders_abs(a, b);
    } else if b.magnitude() < a.magnitude() {
        lemma_magnitude_orders_abs(b, a);
    } else {
        assert(a.abs_scaled() == b.abs_scaled());
    }
}

/// The total order of patterns refines the order of the numbers: it agrees
/// with it wherever two numbers differ, and it puts minus zero below plus
/// zero. Two patterns share a place in it only when they are the same.
pub proof fn lemma_total_key_refines_order(a: Scalar, b: Scalar)
    ensures
        a.spec_total_key() == b.spec_total_key() <==> a == b,
        a.scaled() < b.scaled() ==> a.spec_total_key() < b.spec_total_key(),
        a.spec_total_key() < b.spec_total_key() ==> a.scaled() <= b.scaled(),
{
    lemma_rank_orders_scaled(a, b);
    assert(a.bits == a.magnitude() + if a.sign_set() { 0x8000_0000int } else { 0 });
    assert(b.bits == b.magnitude() + if b.sign_set() { 0x8000_0000int } else { 0 });
}

/// Both zeros denote the number zero.
pub proof fn lemma_zero_denotes_zero(zero: Scalar)
    requires
        zero.magnitude() == 0,
    ensures
        !zero.spec_is_nan(),
        zero.scaled() == 0,
{
    assert(zero.significand() == 0);
    assert(0 * pow2(zero.shift()) == 0) by (nonlinear_arith);
}

/// The pattern `ONE_BITS` denotes the number one.
pub proof fn lemma_one_denotes_one()
    ensures
        !(Scalar { bits: ONE_BITS }).spec_is_nan(),
        (Scalar { bits: ONE_BITS }).scaled() == pow2(149),
{
    let one = Scalar { bits: ONE_BITS };
    assert(one.exponent() == 127);
    assert(one.significand() == 0x80_0000);
    lemma_pow2_adds(23, 126);
    lemma2_to64();
}

impl Scalar {
    /// Wraps a bit pattern.
    pub fn from_bits(bits: u32) -> (r: Scalar)
        ensures
            r.bits == bits,
    {
        Scalar { bits }
    }

    /// The bit pattern.
    pub fn to_bits(&self) -> (r: u32)
        ensures
            r == self.bits,
    {
        self.bits
    }

    /// Plus zero.
    pub fn zero() -> (r: Scalar)
        ensures
            r.bits == 0,
    {
        Scalar { bits: 0 }
    }

    /// The number one.
    pub fn one() -> (r: Scalar)
        ensures
            r.bits == ONE_BITS,
    {
        Scalar { bits: ONE_BITS }
    }

    /// A quarter turn in radians, to single precision.
    pub fn half_pi() -> (r: Scalar)
        ensures
            r.bits == HALF_PI_BITS,
    {
        Scalar { bits: HALF_PI_BITS }
    }

    /// Whether the pattern denotes no number.
    pub fn is_nan(&self) -> (r: bool)
        ensures
            r == self.spec_is_nan(),
    {
        self.bits % SIGN_BIT > INFINITY_BITS
    }

    fn rank(&self) -> (r: i64)
        ensures
            r == self.spec_rank(),
    {
        let magnitude: u32 = self.bits % SIGN_BIT;
        if self.bits >= SIGN_BIT {
            -(magnitude as i64)
        } else {
            magnitude as i64
        }
    }

    /// `self < other` as numbers: false when either is not a number, and
    /// the two zeros are equal.
    pub fn lt(&self, other: &Scalar) -> (r: bool)
        ensures
            r == self.spec_lt(*other),
    {
        if self.is_nan() || other.is_nan() {
            return false;
        }
        proof {
            lemma_rank_orders_scaled(*self, *other);
        }
        self.rank() < other.rank()
    }

    /// `self <= other` as numbers: false when either is not a number, and
    /// the two zeros are equal.
    pub fn le(&self, other: &Scalar) -> (r: bool)
        ensures
            r == self.spec_le(*other),
    {
        if self.is_nan() || other.is_nan() {
            return false;
        }
        proof {
            lemma_rank_orders_scaled(*self, *other);
        }
        self.rank() <= other.rank()
    }

    /// Position of the pattern in the total order of patterns.
    pub fn total_key(&self) -> (r: i64)
        ensures
            r == self.spec_total_key(),
    {
        let magnitude: u32 = self.bits % SIGN_BIT;
        if self.bits >= SIGN_BIT {
            -1 - (magnitude as i64)
        } else {
            magnitude as i64
        }
    }

    /// The number with the opposite sign.
    pub fn neg(&self) -> (r: Scalar)
        ensures
            r == self.spec_neg(),
            r.magnitude() == self.magnitude(),
            r.sign_set() != self.sign_set(),
            r.scaled() == -self.scaled(),
    {
        if self.bits >= SIGN_BIT {
            Scalar { bits: self.bits - SIGN_BIT }
        } else {
            Scalar { bits: self.bits + SIGN_BIT }
        }
    }

    /// The smaller of two numbers. One that is not a number gives way to the
    /// other; of two equal numbers the first is taken.
    pub fn min(&self, other: &Scalar) -> (r: Scalar)
        ensures
            r == self.spec_min(*other),
    {
        if self.is_nan() {
            *other
        } else if other.lt(self) {
            *other
        } else {
            *self
        }
    }

    /// The number rounded toward zero and held to the range of a byte:
    /// 0 for what is negative or not a number, 255 for what is 255 or more.
    pub fn to_byte(&self) -> (r: u8)
        ensures
            r == self.spec_to_byte(),
    {
        let magnitude: u32 = self.bits % SIGN_BIT;
        if magnitude > INFINITY_BITS {
            return 0;
        }
        if self.bits >= SIGN_BIT {
            proof {
                lemma_rank_orders_scaled(Scalar { bits: 0 }, *self);
            }
            return 0;
        }
        let exponent: u32 = magnitude / HIDDEN_BIT;
        let significand: u32 = HIDDEN_BIT + magnitude % HIDDEN_BIT;
        if exponent < 127 {
            proof {
                self.lemma_below_one();
            }
            return 0;
        }
        if exponent >= 135 {
            proof {
                self.lemma_beyond_byte();
            }
            return 255;
        }
        let drop: u32 = 150 - exponent;
        let whole: u32 = significand >> drop;
        proof {
            self.lemma_whole_part();
            lemma_u32_shr_is_div(significand, drop);
            assert(whole < 256) by (bit_vector)
                requires
                    significand < 0x100_0000,
                    16 <= drop <= 23,
                    whole == significand >> drop,
            ;
        }
        whole as u8
    }

    /// A positive number with a small exponent lies below one.
    proof fn lemma_below_one(self)
        requires
            !self.sign_set(),
            self.exponent() < 127,
        ensures
            0 <= self.scaled(),
            self.scaled() / (pow2(149) as int) == 0,
    {
        let p = pow2(self.shift()) as int;
        lemma_pow2_pos(self.shift());
        lemma_pow2_increases(self.shift(), 125);
        lemma_pow2_adds(24, 125);
        lemma2_to64();
        lemma_mul_inequality(0, self.significand(), p);
        lemma_mul_strict_inequality(self.significand(), 0x100_0000, p);
        lemma_mul_inequality(p, pow2(125) as int, 0x100_0000);
        assert(0x100_0000 * p == p * 0x100_0000) by (nonlinear_arith);
        assert(0x100_0000 * pow2(125) == pow2(125) * 0x100_0000) by (nonlinear_arith);
        lemma_basic_div(self.scaled(), pow2(149) as int);
    }

    /// A positive number with a large exponent is 256 or more.
    proof fn lemma_beyond_byte(self)
        requires
            !self.sign_set(),
            self.exponent() >= 135,
        ensures
            self.scaled() > 0,
            self.scaled() / (pow2(149) as int) >= 256,
    {
        let p = pow2(self.shift()) as int;
        let unit = pow2(149) as int;
        lemma_pow2_pos(149);
        lemma_pow2_increases(134, self.shift());
        lemma_pow2_adds(23, 134);
        lemma_pow2_adds(8, 149);
        lemma2_to64();
        lemma_mul_inequality(0x80_0000, self.significand(), p);
        lemma_mul_inequality(pow2(134) as int, p, 0x80_0000);
        assert(0x80_0000 * p == p * 0x80_0000) by (nonlinear_arith);
        assert(0x80_0000 * pow2(134) == pow2(134) * 0x80_0000) by (nonlinear_arith);
        assert(256 * unit <= self.scaled());
        lemma_div_is_ordered(256 * unit, self.scaled(), unit);
        lemma_div_by_multiple(256, unit);
    }

    /// Between one and 256 the whole part is the significand without its
    /// low digits.
    proof fn lemma_whole_part(self)
        requires
            !self.sign_set(),
            127 <= self.exponent() <= 134,
        ensures
            self.scaled() > 0,
            self.scaled() / (pow2(149) as int) == self.significand() / (pow2(
                (150 - self.exponent()) as nat,
            ) as int),
    {
        let p = pow2(self.shift()) as int;
        let q = pow2((150 - self.exponent()) as nat) as int;
        let s = self.significand();
        lemma_pow2_pos(self.shift());
        lemma_pow2_pos((150 - self.exponent()) as nat);
        lemma_pow2_adds(self.shift(), (150 - self.exponent()) as nat);
        lemma_div_multiples_vanish_quotient(p, s, q);
        assert(s * p == p * s) by (nonlinear_arith);
        lemma_mul_strict_inequality(0, s, p);
        assert(0 * p == 0) by (nonlinear_arith);
    }
}

} // verus!
