//! IEEE 754 binary64 numbers, held by their bit pattern.
//!
//! The executable code works on the 64 bits alone; what a pattern stands for is
//! said by spec functions over the integers. The unit is the smallest positive
//! number of the format, of which the number one holds two to the power of 1074.

use crate::hit_rate::Fraction;
use vstd::arithmetic::power2::*;
use vstd::prelude::*;

verus! {

/// The pattern of positive zero.
pub const POSITIVE_ZERO: u64 = 0;

/// The pattern of the number one.
pub const ONE: u64 = 0x3ff0_0000_0000_0000;

/// The pattern of positive infinity, the largest that is no NaN below the sign bit.
pub const POSITIVE_INFINITY: u64 = 0x7ff0_0000_0000_0000;

/// The pattern of negative zero: the sign bit alone.
pub const NEGATIVE_ZERO: u64 = 0x8000_0000_0000_0000;

/// The pattern of negative infinity.
pub const NEGATIVE_INFINITY: u64 = 0xfff0_0000_0000_0000;

/// A binary64 number by its bit pattern.
#[derive(Clone, Copy, Debug, PartialEq, Eq, Structural)]
pub struct Binary64 {
    pub bits: u64,
}

/// Two to the power of 52, the number of patterns that share an exponent.
#[verifier::inline]
pub open spec fn patterns_per_exponent() -> nat {
    0x10_0000_0000_0000
}

impl Binary64 {
    /// Is the sign bit set?
    pub open spec fn sign_bit(self) -> bool {
        self.bits >= NEGATIVE_ZERO
    }

    /// The pattern without its sign bit.
    pub open spec fn magnitude(self) -> nat {
        if self.sign_bit() {
            (self.bits - NEGATIVE_ZERO) as nat
        } else {
            self.bits as nat
        }
    }

    /// The biased exponent, the eleven bits below the sign.
    pub open spec fn exponent(self) -> nat {
        self.magnitude() / patterns_per_exponent()
    }

    /// The fraction, the low 52 bits.
    pub open spec fn fraction(self) -> nat {
        self.magnitude() % patterns_per_exponent()
    }

    /// All exponent bits set and some fraction bit set.
    pub open spec fn is_nan(self) -> bool {
        self.exponent() == 2047 && self.fraction() != 0
    }

    /// All exponent bits set and no fraction bit set.
    pub open spec fn is_infinite(self) -> bool {
        self.exponent() == 2047 && self.fraction() == 0
    }

    /// The absolute value of a finite number, in units of the smallest positive number.
    ///
    /// A subnormal number (exponent zero) counts its fraction; any other number has
    /// an implicit leading one and counts twice as much for each step of the exponent.
    pub open spec fn units(self) -> nat {
        if self.exponent() == 0 {
            self.fraction()
        } else {
            (patterns_per_exponent() + self.fraction()) * pow2((self.exponent() - 1) as nat)
        }
    }

    /// The value of a finite number, in units of the smallest positive number.
    pub open spec fn signed_units(self) -> int {
        if self.sign_bit() {
            -self.units()
        } else {
            self.units() as int
        }
    }

    /// The distance of a finite number from a fraction, in units of the smallest positive
    /// number and scaled by the fraction's denominator.
    pub open spec fn distance(self, from: Fraction) -> int {
        let difference = self.signed_units() * from.denominator - from.numerator * pow2(1074);
        if difference < 0 {
            -difference
        } else {
            difference
        }
    }

    /// The number is finite and no other finite number is closer to the fraction.
    pub open spec fn is_nearest_to(self, fraction: Fraction) -> bool {
        &&& !self.is_nan() && !self.is_infinite()
        &&& forall|other: Binary64|
            !other.is_nan() && !other.is_infinite() ==> self.distance(fraction)
                <= #[trigger] other.distance(fraction)
    }

    /// The number is what the fraction is rounded to: a nearest number and, where two numbers
    /// are equally near, the one with an even pattern.
    pub open spec fn is_rounding_of(self, fraction: Fraction) -> bool {
        &&& self.is_nearest_to(fraction)
        &&& forall|other: Binary64|
            #[trigger] other.is_nearest_to(fraction) && other.signed_units() != self.signed_units()
                ==> self.bits % 2 == 0
    }

    /// The number is at most the other one. Nothing is, nor is it at most anything, if it is
    /// a NaN.
    pub open spec fn at_most(self, other: Binary64) -> bool {
        &&& !self.is_nan() && !other.is_nan()
        &&& if self.is_infinite() || other.is_infinite() {
            self.is_infinite() && self.sign_bit() || other.is_infinite() && !other.sign_bit()
        } else {
            self.signed_units() <= other.signed_units()
        }
    }

    /// The number is less than zero. Neither zero is, nor a NaN.
    pub open spec fn below_zero(self) -> bool {
        &&& self.sign_bit()
        &&& !self.is_nan()
        &&& self.is_infinite() || self.units() > 0
    }

    /// The number is greater than one. A NaN is not.
    pub open spec fn above_one(self) -> bool {
        &&& !self.sign_bit()
        &&& !self.is_nan()
        &&& self.is_infinite() || self.units() > pow2(1074)
    }

    /// The number lies between zero and one, both included.
    pub open spec fn in_unit_interval(self) -> bool {
        &&& !self.is_nan()
        &&& !self.below_zero()
        &&& !self.above_one()
    }

    /// The number nearest to this one between zero and one; a NaN stays as it is.
    pub open spec fn clamped(self) -> Binary64 {
        if self.below_zero() {
            Binary64 { bits: POSITIVE_ZERO }
        } else if self.above_one() {
            Binary64 { bits: ONE }
        } else {
            self
        }
    }

    /// Tells whether the number lies between zero and one, both included.
    pub fn is_in_unit_interval(self) -> (inside: bool)
        ensures
            inside == self.in_unit_interval(),
            inside <==> self.bits <= ONE || self.bits == NEGATIVE_ZERO,
    {
        proof {
            law_patterns_order_numbers(self);
        }
        self.bits <= ONE || self.bits == NEGATIVE_ZERO
    }

    /// Moves the number into the unit interval.
    ///
    /// What is less than zero becomes positive zero and what is greater than one
    /// becomes one. Everything else keeps its pattern: a number inside, negative zero,
    /// a NaN.
    pub fn clamp_to_unit_interval(self) -> (clamped: Binary64)
        ensures
            clamped == self.clamped(),
            clamped.bits == if ONE < self.bits <= POSITIVE_INFINITY {
                ONE
            } else if NEGATIVE_ZERO < self.bits <= NEGATIVE_INFINITY {
                POSITIVE_ZERO
            } else {
                self.bits
            },
    {
        proof {
            law_patterns_order_numbers(self);
        }
        if ONE < self.bits && self.bits <= POSITIVE_INFINITY {
            Binary64 { bits: ONE }
        } else if NEGATIVE_ZERO < self.bits && self.bits <= NEGATIVE_INFINITY {
            Binary64 { bits: POSITIVE_ZERO }
        } else {
            self
        }
    }
}

/// Patterns stand in the order of the numbers they stand for, as far as zero, one and
/// the infinities are concerned: the patterns of the NaNs, of the numbers less than zero and
/// of those greater than one form ranges.
pub proof fn law_patterns_order_numbers(x: Binary64)
    ensures
        x.is_nan() <==> POSITIVE_INFINITY < x.bits < NEGATIVE_ZERO || NEGATIVE_INFINITY < x.bits,
        x.below_zero() <==> NEGATIVE_ZERO < x.bits <= NEGATIVE_INFINITY,
        x.above_one() <==> ONE < x.bits <= POSITIVE_INFINITY,
{
    let e = x.exponent();
    let f = x.fraction();
    let p = patterns_per_exponent();
    assert(p == pow2(52)) by {
        lemma2_to64();
        lemma2_to64_rest();
    }
    assert(x.magnitude() == e * p + f && f < p);
    if e == 0 {
        lemma_pow2_strictly_increases(52, 1074);
    } else {
        let scale = pow2((e - 1) as nat);
        lemma_pow2_pos((e - 1) as nat);
        assert((p + f) * scale > 0) by (nonlinear_arith)
            requires
                p > 0,
                scale > 0,
        ;
        if e < 1023 {
            assert((p + f) * scale < 2 * p * scale) by (nonlinear_arith)
                requires
                    f < p,
                    scale > 0,
            ;
            assert(2 * p * scale == pow2((e + 52) as nat)) by {
                lemma_pow2_adds(52, (e - 1) as nat);
                lemma_pow2_adds(1, (e + 51) as nat);
                lemma2_to64();
                assert(2 * p * scale == 2 * (p * scale)) by (nonlinear_arith);
            }
            if e + 52 < 1074 {
                lemma_pow2_strictly_increases((e + 52) as nat, 1074);
            }
        } else if e == 1023 {
            lemma_pow2_adds(52, 1022);
            assert((p + f) * scale == p * scale + f * scale) by (nonlinear_arith);
            assert(f * scale > 0 <==> f > 0) by (nonlinear_arith)
                requires
                    scale > 0,
                    f >= 0,
            ;
        } else {
            lemma_pow2_adds(52, (e - 1) as nat);
            lemma_pow2_strictly_increases(1074, (e + 51) as nat);
            assert((p + f) * scale >= p * scale) by (nonlinear_arith)
                requires
                    scale > 0,
                    f >= 0,
            ;
        }
    }
}

/// A clamped number lies in the unit interval, unless it is a NaN.
pub proof fn law_clamped_is_in_unit_interval(x: Binary64)
    requires
        !x.is_nan(),
    ensures
        x.clamped().in_unit_interval(),
{
    law_patterns_order_numbers(x);
    law_patterns_order_numbers(x.clamped());
}

/// Clamping changes exactly the numbers outside the unit interval; a number inside and a
/// NaN come back bit for bit.
pub proof fn law_clamping_keeps_what_is_inside(x: Binary64)
    ensures
        x.clamped() == x <==> x.in_unit_interval() || x.is_nan(),
{
    law_patterns_order_numbers(x);
}

/// A number nearest to a fraction between zero and one lies there too, and clamping keeps
/// it.
pub proof fn law_nearest_to_a_rate_is_kept(x: Binary64, rate: Fraction)
    requires
        rate.in_unit_interval(),
        x.is_nearest_to(rate),
    ensures
        x.in_unit_interval(),
        x.clamped() == x,
{
    let zero = Binary64 { bits: POSITIVE_ZERO };
    let one = Binary64 { bits: ONE };
    let n = rate.numerator as int;
    let d = rate.denominator as int;
    let unit = pow2(1074) as int;
    let u = x.units() as int;
    law_patterns_order_numbers(zero);
    law_patterns_order_numbers(one);
    lemma_pow2_pos(1074);
    assert(one.exponent() == 1023 && one.fraction() == 0);
    assert(one.units() == unit) by {
        lemma2_to64_rest();
        lemma_pow2_adds(52, 1022);
    }
    assert(zero.distance(rate) == n * unit) by (nonlinear_arith)
        requires
            zero.distance(rate) == (if 0 * d - n * unit < 0 {
                -(0 * d - n * unit)
            } else {
                0 * d - n * unit
            }),
            n >= 0,
            unit > 0,
    ;
    assert(one.distance(rate) == unit * d - n * unit) by {
        assert(unit * d >= n * unit) by (nonlinear_arith)
            requires
                n <= d,
                unit > 0,
        ;
    }
    if x.below_zero() {
        assert((-u) * d - n * unit < -(n * unit)) by (nonlinear_arith)
            requires
                u > 0,
                d > 0,
        ;
        assert(x.distance(rate) > zero.distance(rate));
    }
    if x.above_one() {
        assert(u * d > unit * d) by (nonlinear_arith)
            requires
                u > unit,
                d > 0,
        ;
        assert(x.distance(rate) > one.distance(rate));
    }
}

/// What is less than zero becomes positive zero, and what is greater than one becomes one.
pub proof fn law_clamping_moves_to_the_nearer_end(x: Binary64)
    ensures
        x.below_zero() ==> x.clamped().bits == 0,
        x.above_one() ==> x.clamped().bits == 0x3ff0_0000_0000_0000,
{
    law_patterns_order_numbers(x);
}

/// No number between zero and one is closer to a finite number than the clamped one.
pub proof fn law_clamped_is_nearest_in_unit_interval(x: Binary64, y: Binary64)
    requires
        !x.is_nan() && !x.is_infinite(),
        0 <= y.signed_units() <= pow2(1074),
    ensures
        0 <= x.clamped().signed_units() <= pow2(1074),
        x.signed_units() <= y.signed_units() ==> x.signed_units() <= x.clamped().signed_units()
            <= y.signed_units(),
        y.signed_units() <= x.signed_units() ==> y.signed_units() <= x.clamped().signed_units()
            <= x.signed_units(),
{
    lemma_units_of_zero_and_one(Binary64 { bits: POSITIVE_ZERO }, Binary64 { bits: ONE });
}

/// Clamping keeps the order of finite numbers.
pub proof fn law_clamping_is_monotone(x: Binary64, y: Binary64)
    requires
        !x.is_nan() && !x.is_infinite(),
        !y.is_nan() && !y.is_infinite(),
        x.signed_units() <= y.signed_units(),
    ensures
        x.clamped().signed_units() <= y.clamped().signed_units(),
{
    lemma_units_of_zero_and_one(Binary64 { bits: POSITIVE_ZERO }, Binary64 { bits: ONE });
}

/// What zero and one count.
proof fn lemma_units_of_zero_and_one(zero: Binary64, one: Binary64)
    requires
        zero.bits == POSITIVE_ZERO,
        one.bits == ONE,
    ensures
        zero.signed_units() == 0,
        one.signed_units() == pow2(1074),
{
    assert(one.exponent() == 1023 && one.fraction() == 0);
    lemma2_to64_rest();
    lemma_pow2_adds(52, 1022);
}

/// Clamping twice is clamping once.
pub proof fn law_clamping_is_idempotent(x: Binary64)
    ensures
        x.clamped().clamped() == x.clamped(),
{
    law_patterns_order_numbers(x);
    law_patterns_order_numbers(x.clamped());
}

} // verus!
