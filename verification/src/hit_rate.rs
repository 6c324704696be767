//! The cache hit rate of one session, as an exact fraction of token counts.

use vstd::prelude::*;

verus! {

/// A fraction of natural numbers: what a [`HitRate`] stands for.
pub struct Fraction {
    pub numerator: nat,
    pub denominator: nat,
}

impl Fraction {
    /// A whole number.
    pub open spec fn whole(number: nat) -> Fraction {
        Fraction { numerator: number, denominator: 1 }
    }

    /// A number of hundredths.
    pub open spec fn hundredths(percent: nat) -> Fraction {
        Fraction { numerator: percent, denominator: 100 }
    }

    /// The quotient of two whole numbers.
    pub open spec fn quotient(numerator: nat, denominator: nat) -> Fraction {
        Fraction { numerator, denominator }
    }

    /// The denominator is not zero.
    pub open spec fn is_defined(self) -> bool {
        self.denominator > 0
    }

    /// The fraction lies between zero and one, both included.
    pub open spec fn in_unit_interval(self) -> bool {
        self.is_defined() && self.numerator <= self.denominator
    }

    /// The fraction is at most the other one.
    pub open spec fn at_most(self, other: Fraction) -> bool {
        self.numerator * other.denominator <= other.numerator * self.denominator
    }

    /// The fraction is at most the given number of hundredths.
    pub open spec fn at_most_percent(self, percent: nat) -> bool {
        self.numerator * 100 <= percent * self.denominator
    }
}

/// All input tokens of a session: fresh, read from the cache and written to the cache.
pub open spec fn total_input_tokens(
    input_tokens: u64,
    cache_read_input_tokens: u64,
    cache_creation_input_tokens: u64,
) -> nat {
    (input_tokens + cache_read_input_tokens + cache_creation_input_tokens) as nat
}

/// The share of the input tokens that came from the cache. A session without any input
/// token has none.
pub open spec fn session_hit_rate(
    input_tokens: u64,
    cache_read_input_tokens: u64,
    cache_creation_input_tokens: u64,
) -> Option<Fraction> {
    if input_tokens == 0 && cache_read_input_tokens == 0 && cache_creation_input_tokens == 0 {
        None
    } else {
        Some(
            Fraction {
                numerator: cache_read_input_tokens as nat,
                denominator: total_input_tokens(
                    input_tokens,
                    cache_read_input_tokens,
                    cache_creation_input_tokens,
                ),
            },
        )
    }
}

/// A cache hit rate: cached input tokens over all input tokens.
///
/// Every value lies between zero and one, both included.
#[derive(Clone, Copy, Debug)]
pub struct HitRate {
    cache_read_tokens: u64,
    total_tokens: u128,
}

impl View for HitRate {
    type V = Fraction;

    closed spec fn view(&self) -> Fraction {
        Fraction {
            numerator: self.cache_read_tokens as nat,
            denominator: self.total_tokens as nat,
        }
    }
}

impl HitRate {
    #[verifier::type_invariant]
    spec fn lies_in_unit_interval(self) -> bool {
        self@.in_unit_interval()
    }

    /// The numerator: input tokens that were read from the cache.
    pub fn cache_read_tokens(&self) -> (tokens: u64)
        ensures
            tokens == self@.numerator,
            self@.in_unit_interval(),
    {
        proof {
            use_type_invariant(self);
        }
        self.cache_read_tokens
    }

    /// The denominator, which is never zero: all input tokens.
    pub fn total_tokens(&self) -> (tokens: u128)
        ensures
            tokens == self@.denominator,
            self@.in_unit_interval(),
    {
        proof {
            use_type_invariant(self);
        }
        self.total_tokens
    }
}

/// Computes the cache hit rate of a session from the three counters of its usage report.
///
/// The denominator is the full input (fresh, read from the cache, written to the cache),
/// not the billed part of it, so that the rate lies between zero and one. The sum is
/// formed in 128 bits, which hold it whatever the counters say. Without any input token
/// the rate is undefined: the result is `None`, never a made-up zero, and the caller skips
/// the observation.
pub fn compute_hit_rate(
    input_tokens: u64,
    cache_read_input_tokens: u64,
    cache_creation_input_tokens: u64,
) -> (rate: Option<HitRate>)
    ensures
        session_hit_rate(
            input_tokens,
            cache_read_input_tokens,
            cache_creation_input_tokens,
        ) == (match rate {
            Some(r) => Some(r@),
            None => None,
        }),
        rate is None <==> input_tokens == 0 && cache_read_input_tokens == 0
            && cache_creation_input_tokens == 0,
        rate matches Some(r) ==> {
            &&& r@.numerator == cache_read_input_tokens
            &&& r@.denominator == input_tokens + cache_read_input_tokens
                + cache_creation_input_tokens
            &&& r@.in_unit_interval()
        },
{
    let total: u128 = input_tokens as u128 + cache_read_input_tokens as u128
        + cache_creation_input_tokens as u128;
    if total == 0 {
        return None;
    }
    Some(HitRate { cache_read_tokens: cache_read_input_tokens, total_tokens: total })
}

/// Wherever there is a rate, it is the cache reads over the full input: multiplied by the sum
/// of the three counters it gives the cache reads. There is one wherever a counter is not
/// zero.
pub proof fn law_rate_times_full_input_is_cache_reads(
    input_tokens: u64,
    cache_read_input_tokens: u64,
    cache_creation_input_tokens: u64,
)
    ensures
        session_hit_rate(
            input_tokens,
            cache_read_input_tokens,
            cache_creation_input_tokens,
        ) matches Some(rate) ==> rate.denominator > 0 && rate.numerator * (input_tokens
            + cache_read_input_tokens + cache_creation_input_tokens) == cache_read_input_tokens
            * rate.denominator,
        session_hit_rate(
            input_tokens,
            cache_read_input_tokens,
            cache_creation_input_tokens,
        ) is Some <==> input_tokens > 0 || cache_read_input_tokens > 0
            || cache_creation_input_tokens > 0,
{
}

/// The shares of a session add up: the cache reads and all other tokens make the denominator,
/// so that one more token of any kind adds one to it.
pub proof fn law_every_token_counts_once(
    input_tokens: u64,
    cache_read_input_tokens: u64,
    cache_creation_input_tokens: u64,
)
    ensures
        session_hit_rate(
            input_tokens,
            cache_read_input_tokens,
            cache_creation_input_tokens,
        ) matches Some(rate) ==> {
            &&& rate.numerator == cache_read_input_tokens
            &&& rate.denominator - rate.numerator == input_tokens + cache_creation_input_tokens
        },
{
}

/// With nothing else read, a rate strictly falls with every further fresh or written token,
/// unless it is zero.
pub proof fn law_more_other_tokens_lower_a_positive_rate(
    input_tokens: u64,
    cache_read_input_tokens: u64,
    cache_creation_input_tokens: u64,
    more_input_tokens: u64,
    more_cache_creation_input_tokens: u64,
)
    requires
        cache_read_input_tokens > 0,
        input_tokens + cache_creation_input_tokens < more_input_tokens
            + more_cache_creation_input_tokens,
    ensures
        session_hit_rate(
            input_tokens,
            cache_read_input_tokens,
            cache_creation_input_tokens,
        ) matches Some(high) && session_hit_rate(
            more_input_tokens,
            cache_read_input_tokens,
            more_cache_creation_input_tokens,
        ) matches Some(low) && low.numerator * high.denominator < high.numerator
            * low.denominator,
{
    let reads = cache_read_input_tokens as int;
    let fewer = input_tokens + cache_read_input_tokens + cache_creation_input_tokens;
    let more = more_input_tokens + cache_read_input_tokens + more_cache_creation_input_tokens;
    assert(reads * fewer < reads * more) by (nonlinear_arith)
        requires
            fewer < more,
            reads > 0,
    ;
}

/// A hit rate lies between zero and one, whatever the counters say.
pub proof fn law_hit_rate_is_in_unit_interval(
    input_tokens: u64,
    cache_read_input_tokens: u64,
    cache_creation_input_tokens: u64,
)
    ensures
        session_hit_rate(
            input_tokens,
            cache_read_input_tokens,
            cache_creation_input_tokens,
        ) matches Some(rate) ==> rate.in_unit_interval(),
{
}

/// There is a rate exactly where there is an input token: an empty session is not
/// reported as a rate of zero.
pub proof fn law_only_an_empty_session_has_no_rate(
    input_tokens: u64,
    cache_read_input_tokens: u64,
    cache_creation_input_tokens: u64,
)
    ensures
        session_hit_rate(
            input_tokens,
            cache_read_input_tokens,
            cache_creation_input_tokens,
        ) is None <==> total_input_tokens(
            input_tokens,
            cache_read_input_tokens,
            cache_creation_input_tokens,
        ) == 0,
{
}

/// A rate is zero exactly where nothing was read from the cache.
pub proof fn law_zero_means_no_cache_reads(
    input_tokens: u64,
    cache_read_input_tokens: u64,
    cache_creation_input_tokens: u64,
)
    ensures
        session_hit_rate(
            input_tokens,
            cache_read_input_tokens,
            cache_creation_input_tokens,
        ) matches Some(rate) ==> (rate.numerator == 0 <==> cache_read_input_tokens == 0),
{
}

/// A rate is one exactly where every input token was read from the cache.
pub proof fn law_one_means_all_from_cache(
    input_tokens: u64,
    cache_read_input_tokens: u64,
    cache_creation_input_tokens: u64,
)
    ensures
        session_hit_rate(
            input_tokens,
            cache_read_input_tokens,
            cache_creation_input_tokens,
        ) matches Some(rate) ==> (rate.numerator == rate.denominator <==> input_tokens == 0
            && cache_creation_input_tokens == 0),
{
}

/// Tokens written to the cache weigh in the denominator exactly as fresh ones do: only
/// their sum matters.
pub proof fn law_fresh_and_written_tokens_weigh_the_same(
    input_tokens: u64,
    cache_read_input_tokens: u64,
    cache_creation_input_tokens: u64,
    other_input_tokens: u64,
    other_cache_creation_input_tokens: u64,
)
    requires
        input_tokens + cache_creation_input_tokens == other_input_tokens
            + other_cache_creation_input_tokens,
    ensures
        session_hit_rate(input_tokens, cache_read_input_tokens, cache_creation_input_tokens)
            == session_hit_rate(
            other_input_tokens,
            cache_read_input_tokens,
            other_cache_creation_input_tokens,
        ),
{
}

/// With the other counters unchanged, more cache reads never lower the rate.
pub proof fn law_more_cache_reads_never_lower_the_rate(
    input_tokens: u64,
    fewer_cache_reads: u64,
    more_cache_reads: u64,
    cache_creation_input_tokens: u64,
)
    requires
        fewer_cache_reads <= more_cache_reads,
    ensures
        session_hit_rate(input_tokens, fewer_cache_reads, cache_creation_input_tokens) matches Some(
            low,
        ) ==> session_hit_rate(
            input_tokens,
            more_cache_reads,
            cache_creation_input_tokens,
        ) matches Some(high) && low.at_most(high),
{
    let rest = input_tokens + cache_creation_input_tokens;
    assert(fewer_cache_reads * (more_cache_reads + rest) <= more_cache_reads * (fewer_cache_reads
        + rest)) by (nonlinear_arith)
        requires
            fewer_cache_reads <= more_cache_reads,
            rest >= 0,
    ;
}

/// With the cache reads unchanged, fewer fresh or written tokens never lower the rate.
pub proof fn law_fewer_other_tokens_never_lower_the_rate(
    more_input_tokens: u64,
    fewer_input_tokens: u64,
    cache_read_input_tokens: u64,
    more_cache_creation_input_tokens: u64,
    fewer_cache_creation_input_tokens: u64,
)
    requires
        fewer_input_tokens <= more_input_tokens,
        fewer_cache_creation_input_tokens <= more_cache_creation_input_tokens,
    ensures
        session_hit_rate(
            more_input_tokens,
            cache_read_input_tokens,
            more_cache_creation_input_tokens,
        ) matches Some(low) ==> session_hit_rate(
            fewer_input_tokens,
            cache_read_input_tokens,
            fewer_cache_creation_input_tokens,
        ) matches Some(high) ==> low.at_most(high),
{
    let reads = cache_read_input_tokens as int;
    let more = more_input_tokens + cache_read_input_tokens + more_cache_creation_input_tokens;
    let fewer = fewer_input_tokens + cache_read_input_tokens + fewer_cache_creation_input_tokens;
    assert(reads * fewer <= reads * more) by (nonlinear_arith)
        requires
            fewer <= more,
            reads >= 0,
    ;
}

} // verus!
