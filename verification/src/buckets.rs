//! The buckets of the hit rate histogram.
//!
//! The first laws speak of exact rates and exact hundredths, the last ones of the recorded
//! sample and the exported bounds, which are rounded. A sample is counted in the cumulative
//! bucket of every bound that it is at most.

use crate::binary64::Binary64;
use crate::hit_rate::Fraction;
use vstd::prelude::*;

verus! {

/// The upper bounds of the buckets, in hundredths, each one included in its bucket.
///
/// They lie close together near zero, where a barely used cache has to be told from an
/// unused one, and near one hundred, where an almost perfect cache has to be told from a
/// perfect one. The middle is coarser.
pub const CACHE_HIT_RATE_BUCKETS: [u8; 11] = [0, 1, 5, 10, 25, 50, 75, 90, 95, 99, 100];

/// Every bound is less than the ones behind it.
pub open spec fn strictly_increasing(bounds: Seq<u8>) -> bool {
    forall|i: int, j: int| 0 <= i < j < bounds.len() ==> bounds[i] < bounds[j]
}

/// The bucket holds the rate: the rate is at most the bucket's bound and more than the
/// bound before it.
pub open spec fn bucket_holds(bounds: Seq<u8>, bucket: int, rate: Fraction) -> bool {
    &&& 0 <= bucket < bounds.len()
    &&& rate.at_most_percent(bounds[bucket] as nat)
    &&& bucket > 0 ==> !rate.at_most_percent(bounds[bucket - 1] as nat)
}

/// The distance from the bound before the bucket to its own.
pub open spec fn bucket_width(bounds: Seq<u8>, bucket: int) -> int {
    bounds[bucket] - bounds[bucket - 1]
}

/// The bounds increase strictly, from zero to one hundred hundredths.
pub proof fn law_bounds_increase_from_zero_to_one()
    ensures
        strictly_increasing(CACHE_HIT_RATE_BUCKETS@),
        CACHE_HIT_RATE_BUCKETS@.first() == 0,
        CACHE_HIT_RATE_BUCKETS@.last() == 100,
{
}

/// Every rate between zero and one falls into exactly one bucket.
pub proof fn law_every_rate_has_one_bucket(rate: Fraction)
    requires
        rate.in_unit_interval(),
    ensures
        exists|bucket: int| bucket_holds(CACHE_HIT_RATE_BUCKETS@, bucket, rate),
        forall|a: int, b: int|
            bucket_holds(CACHE_HIT_RATE_BUCKETS@, a, rate) && bucket_holds(
                CACHE_HIT_RATE_BUCKETS@,
                b,
                rate,
            ) ==> a == b,
{
    law_bounds_increase_from_zero_to_one();
    let bounds = CACHE_HIT_RATE_BUCKETS@;
    lemma_bucket_up_to(bounds, bounds.len() - 1, rate);
    assert forall|a: int, b: int|
        bucket_holds(bounds, a, rate) && bucket_holds(bounds, b, rate) implies a == b by {
        if a < b {
            lemma_bounds_order_rates(bounds, a, b - 1, rate);
        } else if b < a {
            lemma_bounds_order_rates(bounds, b, a - 1, rate);
        }
    }
}

/// The first bucket holds the rates that are zero and no others.
pub proof fn law_first_bucket_holds_only_zero(rate: Fraction)
    requires
        rate.in_unit_interval(),
    ensures
        bucket_holds(CACHE_HIT_RATE_BUCKETS@, 0, rate) <==> rate.numerator == 0,
{
    assert(CACHE_HIT_RATE_BUCKETS@[0] == 0);
    assert(0 * rate.denominator == 0) by (nonlinear_arith);
}

/// The last bucket holds the rates above ninety-nine hundredths: a perfect rate is in it,
/// and every rate that misses by a hundredth or more is not.
pub proof fn law_last_bucket_holds_only_the_top_hundredth(rate: Fraction)
    requires
        rate.in_unit_interval(),
    ensures
        bucket_holds(CACHE_HIT_RATE_BUCKETS@, 10, rate) <==> !rate.at_most_percent(99),
        rate.numerator == rate.denominator ==> bucket_holds(CACHE_HIT_RATE_BUCKETS@, 10, rate),
{
}

/// Buckets that end at most at a tenth or begin at least at nine tenths are narrower than
/// all the others.
pub proof fn law_middle_is_coarser(edge: int, middle: int)
    requires
        0 < edge < CACHE_HIT_RATE_BUCKETS@.len(),
        0 < middle < CACHE_HIT_RATE_BUCKETS@.len(),
        CACHE_HIT_RATE_BUCKETS@[edge] <= 10 || CACHE_HIT_RATE_BUCKETS@[edge - 1] >= 90,
        CACHE_HIT_RATE_BUCKETS@[middle] > 10 && CACHE_HIT_RATE_BUCKETS@[middle - 1] < 90,
    ensures
        bucket_width(CACHE_HIT_RATE_BUCKETS@, edge) < bucket_width(CACHE_HIT_RATE_BUCKETS@, middle),
{
}

/// The exported bounds increase.
pub proof fn law_exported_bounds_increase(bounds: Seq<Binary64>)
    requires
        crate::rounding::are_rounded_hundredths(bounds, CACHE_HIT_RATE_BUCKETS@),
    ensures
        crate::rounding::numbers_increase(bounds),
{
    law_bounds_increase_from_zero_to_one();
    assert forall|i: int, j: int| 0 <= i < j < bounds.len() implies !bounds[j].at_most(
        bounds[i],
    ) by {
        crate::rounding::law_rounded_hundredths_increase(
            CACHE_HIT_RATE_BUCKETS@[i],
            CACHE_HIT_RATE_BUCKETS@[j],
            bounds[i],
            bounds[j],
        );
    }
}

/// The first exported bucket counts the samples that are zero and no others.
pub proof fn law_first_exported_bucket_counts_only_zero(bounds: Seq<Binary64>, sample: Binary64)
    requires
        crate::rounding::are_rounded_hundredths(bounds, CACHE_HIT_RATE_BUCKETS@),
        sample.in_unit_interval(),
    ensures
        sample.at_most(bounds[0]) <==> sample.signed_units() == 0,
{
    assert(bounds[0].is_rounding_of(Fraction::hundredths(0)));
    crate::rounding::law_zero_and_one_are_rounded_to_themselves(bounds[0], bounds[10]);
    crate::rounding::law_unit_interval_in_units(sample);
}

/// The exported bucket of ninety-nine hundredths counts the samples up to that number,
/// rounded, and so never the sample one.
pub proof fn law_exported_bucket_below_the_last_leaves_one_out(
    bounds: Seq<Binary64>,
    sample: Binary64,
    limit: Binary64,
)
    requires
        crate::rounding::are_rounded_hundredths(bounds, CACHE_HIT_RATE_BUCKETS@),
        sample.in_unit_interval(),
        limit.is_rounding_of(Fraction::hundredths(99)),
    ensures
        sample.at_most(bounds[9]) <==> sample.at_most(limit),
        sample.signed_units() == vstd::arithmetic::power2::pow2(1074) ==> !sample.at_most(bounds[9]),
{
    let hundredths = Fraction::hundredths(99);
    assert(bounds[9].is_rounding_of(hundredths));
    assert(bounds[10].is_rounding_of(Fraction::hundredths(100)));
    crate::rounding::law_rounding_is_monotone(hundredths, hundredths, limit, bounds[9]);
    crate::rounding::law_rounding_is_monotone(hundredths, hundredths, bounds[9], limit);
    crate::rounding::law_rounded_hundredths_increase(99, 100, bounds[9], bounds[10]);
    assert(bounds[0].is_rounding_of(Fraction::hundredths(0)));
    crate::rounding::law_zero_and_one_are_rounded_to_themselves(bounds[0], bounds[10]);
    crate::rounding::law_unit_interval_in_units(sample);
}

/// The last exported bucket counts every sample in the unit interval.
pub proof fn law_last_exported_bucket_counts_every_sample(bounds: Seq<Binary64>, sample: Binary64)
    requires
        crate::rounding::are_rounded_hundredths(bounds, CACHE_HIT_RATE_BUCKETS@),
        sample.in_unit_interval(),
    ensures
        sample.at_most(bounds[10]),
{
    assert(bounds[0].is_rounding_of(Fraction::hundredths(0)));
    assert(bounds[10].is_rounding_of(Fraction::hundredths(100)));
    crate::rounding::law_zero_and_one_are_rounded_to_themselves(bounds[0], bounds[10]);
    crate::rounding::law_unit_interval_in_units(sample);
}

/// A rate within one bound is within every later one.
proof fn lemma_bounds_order_rates(bounds: Seq<u8>, low: int, high: int, rate: Fraction)
    requires
        strictly_increasing(bounds),
        0 <= low <= high < bounds.len(),
        rate.at_most_percent(bounds[low] as nat),
    ensures
        rate.at_most_percent(bounds[high] as nat),
{
    let l = bounds[low] as nat;
    let h = bounds[high] as nat;
    let d = rate.denominator;
    assert(l * d <= h * d) by (nonlinear_arith)
        requires
            l <= h,
    ;
}

/// A rate within a bound falls into that bound's bucket or an earlier one.
proof fn lemma_bucket_up_to(bounds: Seq<u8>, last: int, rate: Fraction)
    requires
        0 <= last < bounds.len(),
        rate.at_most_percent(bounds[last] as nat),
    ensures
        exists|bucket: int| bucket_holds(bounds, bucket, rate),
    decreases last,
{
    if last > 0 && rate.at_most_percent(bounds[last - 1] as nat) {
        lemma_bucket_up_to(bounds, last - 1, rate);
    } else {
        assert(bucket_holds(bounds, last, rate));
    }
}

} // verus!
