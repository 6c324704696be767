//! Rounding a fraction to a binary64 number.
//!
//! The recorded sample is a quotient that was rounded, of two token counts that were rounded
//! before it, and the exported bucket bounds are rounded hundredths. Rounding keeps the order
//! of fractions, so that what is said of exact rates carries over to samples.

use crate::binary64::{Binary64, ONE, POSITIVE_ZERO};
use crate::hit_rate::Fraction;
use vstd::arithmetic::power2::*;
use vstd::prelude::*;

verus! {

/// Every number is what as many hundredths are rounded to.
pub open spec fn are_rounded_hundredths(numbers: Seq<Binary64>, percents: Seq<u8>) -> bool {
    &&& numbers.len() == percents.len()
    &&& forall|i: int|
        0 <= i < numbers.len() ==> (#[trigger] numbers[i]).is_rounding_of(
            Fraction::hundredths(percents[i] as nat),
        )
}

/// Every number is less than the ones behind it.
pub open spec fn numbers_increase(numbers: Seq<Binary64>) -> bool {
    forall|i: int, j: int| 0 <= i < j < numbers.len() ==> !numbers[j].at_most(numbers[i])
}

/// Of two finite numbers without a sign, the one with the larger pattern is the larger one.
proof fn lemma_units_increase(low: Binary64, high: Binary64)
    requires
        low.magnitude() < high.magnitude(),
        high.exponent() < 2047,
    ensures
        low.units() < high.units(),
{
    let p = crate::binary64::patterns_per_exponent();
    let (e, f) = (low.exponent(), low.fraction());
    let (g, h) = (high.exponent(), high.fraction());
    assert(p == pow2(52)) by {
        lemma2_to64_rest();
    }
    assert(low.magnitude() == e * p + f && f < p);
    assert(high.magnitude() == g * p + h && h < p);
    assert(e <= g);
    if e == g {
        if e > 0 {
            let scale = pow2((e - 1) as nat);
            lemma_pow2_pos((e - 1) as nat);
            assert((p + f) * scale < (p + h) * scale) by (nonlinear_arith)
                requires
                    f < h,
                    scale > 0,
            ;
        }
    } else {
        let scale = pow2((g - 1) as nat);
        lemma_pow2_pos((g - 1) as nat);
        assert((p + h) * scale >= p * scale) by (nonlinear_arith)
            requires
                scale > 0,
        ;
        if e == 0 {
            assert(p * scale >= p) by (nonlinear_arith)
                requires
                    scale > 0,
            ;
        } else {
            let low_scale = pow2((e - 1) as nat);
            lemma_pow2_pos((e - 1) as nat);
            lemma_pow2_unfold(e);
            if e < g - 1 {
                lemma_pow2_strictly_increases(e, (g - 1) as nat);
            }
            assert((p + f) * low_scale < p * scale) by (nonlinear_arith)
                requires
                    f < p,
                    low_scale > 0,
                    2 * low_scale <= scale,
            ;
        }
    }
}

/// A number strictly between two others is closer to a fraction than one of them.
proof fn lemma_between_is_closer(low: Binary64, between: Binary64, high: Binary64, a: Fraction)
    requires
        a.is_defined(),
        low.signed_units() < between.signed_units() < high.signed_units(),
    ensures
        between.distance(a) < low.distance(a) || between.distance(a) < high.distance(a),
{
    let d = a.denominator as int;
    let (l, b, h) = (low.signed_units(), between.signed_units(), high.signed_units());
    assert(l * d < b * d && b * d < h * d) by (nonlinear_arith)
        requires
            l < b < h,
            d > 0,
    ;
}

/// Of two numbers equally near to a fraction, exactly one has an even pattern.
proof fn lemma_equally_near_differ_in_parity(low: Binary64, high: Binary64, a: Fraction)
    requires
        a.is_defined(),
        low.is_nearest_to(a),
        high.is_nearest_to(a),
        low.signed_units() < high.signed_units(),
    ensures
        low.bits % 2 != high.bits % 2,
{
    let d = a.denominator as int;
    let c = a.numerator * pow2(1074);
    let zero = Binary64 { bits: POSITIVE_ZERO };
    let (l, h) = (low.signed_units(), high.signed_units());
    assert(zero.signed_units() == 0 && zero.exponent() == 0);
    assert(c >= 0) by (nonlinear_arith)
        requires
            c == a.numerator * pow2(1074),
    ;
    assert(low.distance(a) <= high.distance(a));
    assert(high.distance(a) <= low.distance(a));
    assert(h > 0) by {
        if h <= 0 {
            assert(l * d < h * d && h * d <= 0) by (nonlinear_arith)
                requires
                    l < h <= 0,
                    d > 0,
            ;
        }
    }
    assert(l >= 0) by {
        if l < 0 {
            lemma_between_is_closer(low, zero, high, a);
            assert(low.distance(a) <= zero.distance(a));
        }
    }
    assert(!high.sign_bit());
    assert(low.magnitude() < high.magnitude()) by {
        if high.magnitude() < low.magnitude() {
            lemma_units_increase(high, low);
        }
    }
    let next = Binary64 { bits: (low.magnitude() + 1) as u64 };
    assert(next.magnitude() == low.magnitude() + 1);
    if next.magnitude() < high.magnitude() {
        lemma_units_increase(low, next);
        lemma_units_increase(next, high);
        lemma_between_is_closer(low, next, high, a);
        assert(low.distance(a) <= next.distance(a));
    }
}

/// Rounding keeps the order of fractions.
pub proof fn law_rounding_is_monotone(a: Fraction, b: Fraction, x: Binary64, y: Binary64)
    requires
        a.is_defined(),
        b.is_defined(),
        a.at_most(b),
        x.is_rounding_of(a),
        y.is_rounding_of(b),
    ensures
        x.signed_units() <= y.signed_units(),
{
    let unit = pow2(1074) as int;
    let (an, ad) = (a.numerator as int, a.denominator as int);
    let (bn, bd) = (b.numerator as int, b.denominator as int);
    let (sx, sy) = (x.signed_units(), y.signed_units());
    lemma_pow2_pos(1074);
    if sx > sy {
        assert(x.distance(a) <= y.distance(a));
        assert(y.distance(b) <= x.distance(b));
        assert(sx * ad > sy * ad && sx * bd > sy * bd) by (nonlinear_arith)
            requires
                sx > sy,
                ad > 0,
                bd > 0,
        ;
        assert(2 * (an * unit) >= sx * ad + sy * ad);
        assert(2 * (bn * unit) <= sx * bd + sy * bd);
        assert(2 * (an * unit) == sx * ad + sy * ad && 2 * (bn * unit) == sx * bd + sy * bd)
            by (nonlinear_arith)
            requires
                2 * (an * unit) >= sx * ad + sy * ad,
                2 * (bn * unit) <= sx * bd + sy * bd,
                an * bd <= bn * ad,
                ad > 0,
                bd > 0,
                unit > 0,
        {
            let s = sx + sy;
            assert(2 * (an * unit) * bd >= s * ad * bd);
            assert(2 * (bn * unit) * ad <= s * bd * ad);
            assert(2 * (an * unit) * bd <= 2 * (bn * unit) * ad);
            assert((2 * (an * unit) - s * ad) * bd == 0);
            assert((2 * (bn * unit) - s * bd) * ad == 0);
        }
        assert(x.distance(a) == y.distance(a));
        assert(x.distance(b) == y.distance(b));
        assert(y.is_nearest_to(a));
        assert(x.is_nearest_to(b));
        lemma_equally_near_differ_in_parity(y, x, a);
    }
}

/// A whole number of at most 53 bits, times a power of two, is a binary64 number as long as
/// its exponent fits.
proof fn lemma_representable(m: nat, j: nat) -> (x: Binary64)
    requires
        m < 0x20_0000_0000_0000,
        j <= 2045,
    ensures
        !x.sign_bit(),
        x.exponent() < 2047,
        x.units() == m * pow2(j),
    decreases j,
{
    if m >= 0x10_0000_0000_0000 {
        let bits = (j + 1) * 0x10_0000_0000_0000 + (m - 0x10_0000_0000_0000);
        let x = Binary64 { bits: bits as u64 };
        assert(x.exponent() == j + 1 && x.fraction() == m - 0x10_0000_0000_0000);
        x
    } else if j == 0 {
        let x = Binary64 { bits: m as u64 };
        lemma2_to64();
        assert(x.exponent() == 0 && x.fraction() == m);
        x
    } else {
        let x = lemma_representable(2 * m, (j - 1) as nat);
        lemma_pow2_unfold(j);
        let half = pow2((j - 1) as nat);
        assert((2 * m) * half == m * (2 * half)) by (nonlinear_arith);
        x
    }
}

/// A fraction that is a binary64 number is rounded to that number.
proof fn lemma_exact_is_rounding(x: Binary64, a: Fraction)
    requires
        a.is_defined(),
        x.exponent() < 2047,
        x.signed_units() * a.denominator == a.numerator * pow2(1074),
    ensures
        x.is_rounding_of(a),
{
    assert(x.distance(a) == 0);
    assert forall|other: Binary64| #[trigger]
        other.is_nearest_to(a) && other.signed_units() != x.signed_units() implies x.bits % 2
        == 0 by {
        assert(other.distance(a) <= x.distance(a));
        let (s, t, d) = (x.signed_units(), other.signed_units(), a.denominator as int);
        assert(s == t) by (nonlinear_arith)
            requires
                s * d == t * d,
                d > 0,
        ;
    }
}

/// A number nearest to a fraction that is a binary64 number is that number.
proof fn lemma_nearest_to_exact(x: Binary64, exact: Binary64, a: Fraction)
    requires
        a.is_defined(),
        exact.exponent() < 2047,
        exact.signed_units() * a.denominator == a.numerator * pow2(1074),
        x.is_nearest_to(a),
    ensures
        x.signed_units() == exact.signed_units(),
{
    assert(exact.distance(a) == 0);
    assert(x.distance(a) <= exact.distance(a));
    let (s, t, d) = (x.signed_units(), exact.signed_units(), a.denominator as int);
    assert(s == t) by (nonlinear_arith)
        requires
            s * d == t * d,
            d > 0,
    ;
}

/// Different numbers of hundredths are rounded to different numbers, in the same order.
pub proof fn law_rounded_hundredths_increase(low: u8, high: u8, x: Binary64, y: Binary64)
    requires
        low < high,
        x.is_rounding_of(Fraction::hundredths(low as nat)),
        y.is_rounding_of(Fraction::hundredths(high as nat)),
    ensures
        x.signed_units() < y.signed_units(),
{
    // Two multiples of 1/1024 lie between the two fractions, and both are binary64 numbers.
    let k = ((low as nat) * 1024) / 100 + 1;
    let a = Fraction::quotient(k, 1024);
    let b = Fraction::quotient(k + 1, 1024);
    let p = lemma_representable(k, 1064);
    let q = lemma_representable(k + 1, 1064);
    let step = pow2(1064);
    lemma_pow2_pos(1064);
    assert(pow2(1074) == step * 1024) by {
        lemma_pow2_adds(1064, 10);
        lemma2_to64();
    }
    assert((k * step) * 1024 == k * (step * 1024)) by (nonlinear_arith);
    assert(((k + 1) * step) * 1024 == (k + 1) * (step * 1024)) by (nonlinear_arith);
    lemma_exact_is_rounding(p, a);
    lemma_exact_is_rounding(q, b);
    law_rounding_is_monotone(Fraction::hundredths(low as nat), a, x, p);
    law_rounding_is_monotone(b, Fraction::hundredths(high as nat), q, y);
    assert(k * step < (k + 1) * step) by (nonlinear_arith)
        requires
            step > 0,
    ;
}

/// A sample stands to the exported bounds as the exact rate stands to the hundredths: a rate
/// of at most that many hundredths is rounded to at most the rounded bound, and any other
/// rate to at least the rounded bound.
pub proof fn law_sample_keeps_to_its_bounds(
    rate: Fraction,
    percent: nat,
    sample: Binary64,
    bound: Binary64,
)
    requires
        rate.is_defined(),
        sample.is_rounding_of(rate),
        bound.is_rounding_of(Fraction::hundredths(percent)),
    ensures
        rate.at_most_percent(percent) ==> sample.signed_units() <= bound.signed_units(),
        !rate.at_most_percent(percent) ==> bound.signed_units() <= sample.signed_units(),
{
    let hundredths = Fraction::hundredths(percent);
    if rate.at_most_percent(percent) {
        law_rounding_is_monotone(rate, hundredths, sample, bound);
    } else {
        law_rounding_is_monotone(hundredths, rate, bound, sample);
    }
}

/// What zero, the smallest positive number and one stand for.
proof fn lemma_landmarks(zero: Binary64, least: Binary64, one: Binary64)
    requires
        zero.bits == POSITIVE_ZERO,
        least.bits == 1,
        one.bits == ONE,
    ensures
        zero.signed_units() == 0 && zero.exponent() == 0,
        least.signed_units() == 1 && least.exponent() == 0,
        one.signed_units() == pow2(1074) && one.exponent() == 1023,
{
    assert(one.exponent() == 1023 && one.fraction() == 0);
    lemma2_to64_rest();
    lemma_pow2_adds(52, 1022);
}

/// Zero is rounded to zero, and a fraction of more than half the smallest positive number to
/// something positive.
proof fn lemma_rounding_tells_zero_apart(x: Binary64, a: Fraction)
    requires
        a.is_defined(),
        x.is_nearest_to(a),
    ensures
        a.numerator == 0 ==> x.signed_units() == 0,
        a.denominator < 2 * (a.numerator * pow2(1074)) ==> x.signed_units() > 0,
{
    let zero = Binary64 { bits: POSITIVE_ZERO };
    let least = Binary64 { bits: 1 };
    let d = a.denominator as int;
    let c = a.numerator * pow2(1074);
    let s = x.signed_units();
    lemma_landmarks(zero, least, Binary64 { bits: ONE });
    assert(x.distance(a) <= zero.distance(a));
    assert(x.distance(a) <= least.distance(a));
    assert(0 * d == 0) by (nonlinear_arith);
    if a.numerator == 0 {
        assert(c == 0) by (nonlinear_arith)
            requires
                c == a.numerator * pow2(1074),
                a.numerator == 0,
        ;
        assert(s == 0) by (nonlinear_arith)
            requires
                s * d == 0,
                d > 0,
        ;
    }
    if d < 2 * c && s <= 0 {
        assert(s * d <= 0) by (nonlinear_arith)
            requires
                s <= 0,
                d > 0,
        ;
    }
}

/// The rounded hit rate of a session is zero exactly where nothing was read from the cache.
pub proof fn law_rounded_rate_is_zero_only_without_cache_reads(
    input_tokens: u64,
    cache_read_input_tokens: u64,
    cache_creation_input_tokens: u64,
    rate: Fraction,
    sample: Binary64,
)
    requires
        crate::hit_rate::session_hit_rate(
            input_tokens,
            cache_read_input_tokens,
            cache_creation_input_tokens,
        ) == Some(rate),
        sample.is_nearest_to(rate),
    ensures
        cache_read_input_tokens == 0 <==> sample.signed_units() == 0,
{
    let unit = pow2(1074);
    let n = rate.numerator;
    lemma_rounding_tells_zero_apart(sample, rate);
    lemma2_to64_rest();
    lemma_pow2_adds(64, 2);
    lemma2_to64();
    lemma_pow2_strictly_increases(66, 1074);
    if n > 0 {
        assert(n * unit >= unit) by (nonlinear_arith)
            requires
                n > 0,
        ;
    }
}

/// The sample of a session, computed as it is: both counts are rounded, and so is their
/// quotient.
///
/// The sample lies in the unit interval, so that clamping keeps it. It is zero exactly where
/// nothing was read from the cache, and one where everything was.
pub proof fn law_rounded_quotient_of_counts_is_kept(
    input_tokens: u64,
    cache_read_input_tokens: u64,
    cache_creation_input_tokens: u64,
    rate: Fraction,
    cache_read: Binary64,
    total: Binary64,
    sample: Binary64,
)
    requires
        crate::hit_rate::session_hit_rate(
            input_tokens,
            cache_read_input_tokens,
            cache_creation_input_tokens,
        ) == Some(rate),
        cache_read.is_rounding_of(Fraction::whole(rate.numerator)),
        total.is_rounding_of(Fraction::whole(rate.denominator)),
        sample.is_rounding_of(Fraction::quotient(cache_read.units(), total.units())),
    ensures
        sample.in_unit_interval(),
        sample.clamped() == sample,
        cache_read_input_tokens == 0 <==> sample.signed_units() == 0,
        rate.numerator == rate.denominator ==> sample.signed_units() == pow2(1074),
{
    let unit = pow2(1074) as int;
    let one = Binary64 { bits: ONE };
    let zero = Binary64 { bits: POSITIVE_ZERO };
    let (n, d) = (rate.numerator as int, rate.denominator as int);
    let counted_n = Fraction::whole(rate.numerator);
    let counted_d = Fraction::whole(rate.denominator);
    let quotient = Fraction::quotient(cache_read.units(), total.units());
    lemma_pow2_pos(1074);
    lemma_landmarks(zero, Binary64 { bits: 1 }, one);
    lemma2_to64();
    lemma2_to64_rest();
    lemma_pow2_adds(64, 2);
    lemma_pow2_strictly_increases(66, 1074);
    law_rounding_is_monotone(counted_n, counted_d, cache_read, total);
    lemma_rounding_tells_zero_apart(cache_read, counted_n);
    assert(total.distance(counted_d) <= one.distance(counted_d));
    assert(total.distance(counted_d) <= zero.distance(counted_d));
    assert(d * unit >= unit) by (nonlinear_arith)
        requires
            d >= 1,
            unit > 0,
    ;
    assert(unit <= total.signed_units() <= 2 * (d * unit));
    if n > 0 {
        assert(cache_read.distance(counted_n) <= one.distance(counted_n));
        assert(n * unit >= unit) by (nonlinear_arith)
            requires
                n >= 1,
                unit > 0,
        ;
        assert(cache_read.signed_units() >= unit);
        let u = cache_read.units() as int;
        assert(d * unit < u * unit) by (nonlinear_arith)
            requires
                d < u,
                unit > 0,
        ;
    }
    assert(quotient.in_unit_interval());
    lemma_rounding_tells_zero_apart(sample, quotient);
    crate::binary64::law_nearest_to_a_rate_is_kept(sample, quotient);
    if n == d {
        law_rounding_is_monotone(counted_d, counted_n, total, cache_read);
        let t = total.units() as int;
        assert(sample.distance(quotient) <= one.distance(quotient));
        assert(unit * t == t * unit) by (nonlinear_arith);
        let s = sample.signed_units();
        assert(s == unit) by (nonlinear_arith)
            requires
                s * t == t * unit,
                t > 0,
        ;
    }
}

/// A count of at most 53 bits is rounded to itself.
proof fn lemma_small_count_is_exact(count: nat, x: Binary64)
    requires
        count <= 0x20_0000_0000_0000,
        x.is_nearest_to(Fraction::whole(count)),
    ensures
        x.signed_units() == count * pow2(1074),
{
    let exact = if count < 0x20_0000_0000_0000 {
        lemma_representable(count, 1074)
    } else {
        lemma_representable(0x10_0000_0000_0000, 1075)
    };
    let unit = pow2(1074);
    lemma_pow2_unfold(1075);
    assert(0x10_0000_0000_0000 * (2 * unit) == 0x20_0000_0000_0000 * unit) by (nonlinear_arith);
    assert(exact.units() == count * unit);
    lemma_nearest_to_exact(x, exact, Fraction::whole(count));
}

/// For a total of at most two to the power of 53, the rounded quotient of the rounded counts
/// is the rounded rate: both counts are rounded to themselves.
pub proof fn law_sample_of_small_counts_is_the_rounded_rate(
    rate: Fraction,
    cache_read: Binary64,
    total: Binary64,
    sample: Binary64,
)
    requires
        rate.in_unit_interval(),
        rate.denominator <= 0x20_0000_0000_0000,
        cache_read.is_rounding_of(Fraction::whole(rate.numerator)),
        total.is_rounding_of(Fraction::whole(rate.denominator)),
        sample.is_rounding_of(Fraction::quotient(cache_read.units(), total.units())),
    ensures
        sample.is_rounding_of(rate),
{
    let unit = pow2(1074) as int;
    let (n, d) = (rate.numerator as int, rate.denominator as int);
    let quotient = Fraction::quotient(cache_read.units(), total.units());
    lemma_pow2_pos(1074);
    lemma_small_count_is_exact(rate.numerator, cache_read);
    lemma_small_count_is_exact(rate.denominator, total);
    assert(n * unit >= 0 && d * unit > 0) by (nonlinear_arith)
        requires
            n >= 0,
            d > 0,
            unit > 0,
    ;
    assert(quotient == Fraction::quotient((n * unit) as nat, (d * unit) as nat));
    assert forall|x: Binary64| #[trigger] x.distance(quotient) == unit * x.distance(rate) by {
        let s = x.signed_units();
        let difference = s * d - n * unit;
        assert(s * (d * unit) - (n * unit) * unit == unit * difference) by (nonlinear_arith)
            requires
                difference == s * d - n * unit,
        ;
        assert(unit * difference < 0 <==> difference < 0) by (nonlinear_arith)
            requires
                unit > 0,
        ;
        assert(unit * (-difference) == -(unit * difference)) by (nonlinear_arith);
    }
    assert forall|x: Binary64| #[trigger] x.is_nearest_to(quotient) <==> x.is_nearest_to(rate) by {
        lemma_scaled_distance_keeps_nearest(x, rate, quotient, unit);
    }
    assert forall|other: Binary64| #[trigger]
        other.is_nearest_to(rate) && other.signed_units() != sample.signed_units() implies sample.bits
        % 2 == 0 by {
        assert(other.is_nearest_to(quotient));
    }
    assert(sample.is_nearest_to(rate));
}

/// A nearest number stays one where all distances are scaled alike.
proof fn lemma_scaled_distance_keeps_nearest(x: Binary64, a: Fraction, b: Fraction, scale: int)
    requires
        scale > 0,
        forall|y: Binary64| #[trigger] y.distance(b) == scale * y.distance(a),
    ensures
        x.is_nearest_to(a) <==> x.is_nearest_to(b),
{
    assert forall|y: Binary64|
        (#[trigger] y.distance(a) >= x.distance(a)) <==> y.distance(b) >= x.distance(b) by {
        let (p, q) = (x.distance(a), y.distance(a));
        assert(y.distance(b) == scale * q && x.distance(b) == scale * p);
        assert(q >= p <==> scale * q >= scale * p) by (nonlinear_arith)
            requires
                scale > 0,
        ;
    }
    if x.is_nearest_to(a) {
        assert forall|y: Binary64| !y.is_nan() && !y.is_infinite() implies x.distance(b)
            <= #[trigger] y.distance(b) by {
            assert(x.distance(a) <= y.distance(a));
        }
    }
    if x.is_nearest_to(b) {
        assert forall|y: Binary64| !y.is_nan() && !y.is_infinite() implies x.distance(a)
            <= #[trigger] y.distance(a) by {
            assert(x.distance(b) <= y.distance(b));
        }
    }
}

/// For a total of at most two to the power of 53, the sample is one only where everything was
/// read from the cache.
pub proof fn law_sample_of_small_counts_is_one_only_if_all_is_cached(
    rate: Fraction,
    sample: Binary64,
)
    requires
        rate.in_unit_interval(),
        rate.denominator <= 0x20_0000_0000_0000,
        sample.is_rounding_of(rate),
    ensures
        sample.signed_units() == pow2(1074) <==> rate.numerator == rate.denominator,
{
    let unit = pow2(1074);
    let (n, d) = (rate.numerator, rate.denominator);
    lemma_pow2_pos(1074);
    if n == d {
        let one = Binary64 { bits: ONE };
        lemma_landmarks(Binary64 { bits: POSITIVE_ZERO }, Binary64 { bits: 1 }, one);
        assert(unit * d == n * unit) by (nonlinear_arith)
            requires
                n == d,
        ;
        lemma_nearest_to_exact(sample, one, rate);
    } else {
        // The largest number below one is 1 - 2^-53, and the rate is at most that.
        let below = Fraction::quotient(0x1f_ffff_ffff_ffff, 0x20_0000_0000_0000);
        let x = lemma_representable(0x1f_ffff_ffff_ffff, 1021);
        let step = pow2(1021);
        lemma_pow2_pos(1021);
        assert(unit == step * 0x20_0000_0000_0000) by {
            lemma_pow2_adds(1021, 53);
            lemma2_to64_rest();
        }
        let (top, all) = (0x1f_ffff_ffff_ffffnat, 0x20_0000_0000_0000nat);
        assert((top * step) * all == top * (step * all)) by (nonlinear_arith);
        lemma_exact_is_rounding(x, below);
        assert(rate.at_most(below)) by {
            assert(n * 0x20_0000_0000_0000 <= 0x1f_ffff_ffff_ffff * d);
        }
        law_rounding_is_monotone(rate, below, sample, x);
    }
}

/// No hundredths are rounded to zero, and a hundred of them to one.
pub proof fn law_zero_and_one_are_rounded_to_themselves(none: Binary64, all: Binary64)
    requires
        none.is_nearest_to(Fraction::hundredths(0)),
        all.is_nearest_to(Fraction::hundredths(100)),
    ensures
        none.signed_units() == 0,
        all.signed_units() == pow2(1074),
{
    let zero = Binary64 { bits: POSITIVE_ZERO };
    let one = Binary64 { bits: ONE };
    lemma_landmarks(zero, Binary64 { bits: 1 }, one);
    lemma_nearest_to_exact(none, zero, Fraction::hundredths(0));
    lemma_nearest_to_exact(all, one, Fraction::hundredths(100));
}

/// The numbers of the unit interval are the finite ones whose units lie between those of
/// zero and of one.
pub proof fn law_unit_interval_in_units(x: Binary64)
    ensures
        x.in_unit_interval() <==> !x.is_nan() && !x.is_infinite() && 0 <= x.signed_units()
            <= pow2(1074),
{
}

/// Of the numbers, one alone counts two to the power of 1074 units.
pub proof fn law_units_of_one(x: Binary64)
    requires
        !x.is_nan() && !x.is_infinite(),
    ensures
        x.signed_units() == pow2(1074) <==> x.bits == ONE,
{
    let one = Binary64 { bits: ONE };
    lemma_landmarks(Binary64 { bits: POSITIVE_ZERO }, Binary64 { bits: 1 }, one);
    lemma_pow2_pos(1074);
    if x.magnitude() < one.magnitude() {
        lemma_units_increase(x, one);
    } else if x.magnitude() > one.magnitude() {
        lemma_units_increase(one, x);
    }
}

} // verus!
