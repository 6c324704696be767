//! The hit rate metric: one histogram series for each provider.

use crate::binary64::Binary64;
use crate::buckets::CACHE_HIT_RATE_BUCKETS;
use crate::metric_names::{
    LABEL_PROVIDER, METRIC_PROXY_CACHE_HIT_RATE_PER_SESSION,
    METRIC_PROXY_CACHE_HIT_RATE_PER_SESSION_HELP,
};
use crate::prom::{
    clone_vec, new_histogram_vec, register, with_label_value, HistogramDesc, HistogramVec,
};
use vstd::prelude::*;

verus! {

/// What is fixed of the metric: its name and help text, its one label and its buckets.
pub open spec fn hit_rate_desc() -> HistogramDesc {
    HistogramDesc {
        name: METRIC_PROXY_CACHE_HIT_RATE_PER_SESSION@,
        help: METRIC_PROXY_CACHE_HIT_RATE_PER_SESSION_HELP@,
        label: LABEL_PROVIDER@,
        bounds: CACHE_HIT_RATE_BUCKETS@,
    }
}

/// The vector is that of the metric: it has the metric's descriptor, and its exported bounds
/// are the rounded hundredths of the metric's buckets.
pub open spec fn is_hit_rate_vec(vec: HistogramVec) -> bool {
    &&& crate::prom::vec_desc(vec) == hit_rate_desc()
    &&& crate::rounding::are_rounded_hundredths(
        crate::prom::vec_bounds(vec),
        CACHE_HIT_RATE_BUCKETS@,
    )
}

/// The descriptor is well formed: making the metric does not fail.
pub proof fn law_descriptor_is_well_formed()
    ensures
        hit_rate_desc().is_well_formed(),
{
    reveal_strlit("proxy_cache_hit_rate_per_session");
    reveal_strlit("Per-session cache hit rate.");
    reveal_strlit("provider");
}

/// The metric is the one named `proxy_cache_hit_rate_per_session`, with the single label
/// `provider`, a help text and eleven buckets whose exported bounds are their hundredths,
/// rounded.
pub proof fn law_metric_has_its_name_label_and_buckets(vec: HistogramVec)
    requires
        is_hit_rate_vec(vec),
    ensures
        crate::prom::vec_desc(vec).name == "proxy_cache_hit_rate_per_session"@,
        crate::prom::vec_desc(vec).label == "provider"@,
        crate::prom::vec_desc(vec).help == "Per-session cache hit rate."@,
        crate::prom::vec_desc(vec).bounds == seq![0u8, 1, 5, 10, 25, 50, 75, 90, 95, 99, 100],
        crate::prom::vec_bounds(vec).len() == 11,
        forall|i: int|
            0 <= i < 11 ==> (#[trigger] crate::prom::vec_bounds(vec)[i]).is_rounding_of(
                crate::hit_rate::Fraction::hundredths(crate::prom::vec_desc(vec).bounds[i] as nat),
            ),
{
    assert(CACHE_HIT_RATE_BUCKETS@ =~= seq![0u8, 1, 5, 10, 25, 50, 75, 90, 95, 99, 100]);
}

/// The metric admits a series for every label value: looking one up does not fail.
pub proof fn law_metric_admits_series(vec: HistogramVec)
    requires
        is_hit_rate_vec(vec),
    ensures
        crate::prom::admits_series(vec),
{
    reveal_strlit("provider");
    crate::buckets::law_exported_bounds_increase(crate::prom::vec_bounds(vec));
}

/// The histogram `proxy_cache_hit_rate_per_session`.
pub struct CacheHitRateHistogram {
    vec: HistogramVec,
}

/// Why there is no histogram to observe on.
#[derive(Debug)]
pub enum HistogramError {
    /// The registry refused the metric, as it does from the second time on.
    Registration(prometheus::Error),
}

impl CacheHitRateHistogram {
    #[verifier::type_invariant]
    spec fn is_the_hit_rate_metric(self) -> bool {
        is_hit_rate_vec(self.vec)
    }

    /// The vector of the metric's series.
    pub closed spec fn series_vec(self) -> HistogramVec {
        self.vec
    }

    /// Makes the metric, without registering it.
    pub fn new() -> (histogram: CacheHitRateHistogram)
        ensures
            is_hit_rate_vec(histogram.series_vec()),
    {
        proof {
            law_descriptor_is_well_formed();
        }
        let vec = new_histogram_vec(
            METRIC_PROXY_CACHE_HIT_RATE_PER_SESSION,
            METRIC_PROXY_CACHE_HIT_RATE_PER_SESSION_HELP,
            LABEL_PROVIDER,
            CACHE_HIT_RATE_BUCKETS.as_slice(),
        ).expect("proxy_cache_hit_rate_per_session descriptor is well-formed");
        CacheHitRateHistogram { vec }
    }

    /// Another handle of the same histogram.
    pub fn handle(&self) -> (handle: CacheHitRateHistogram)
        ensures
            handle.series_vec() == self.series_vec(),
            is_hit_rate_vec(self.series_vec()),
    {
        proof {
            use_type_invariant(self);
        }
        CacheHitRateHistogram { vec: clone_vec(&self.vec) }
    }

    /// Hands the histogram out if its registration succeeded, else the registry's error.
    pub fn after_registration(self, outcome: Result<(), prometheus::Error>) -> (histogram: Result<
        CacheHitRateHistogram,
        HistogramError,
    >)
        ensures
            histogram == (match outcome {
                Ok(_) => Ok(self),
                Err(error) => Err(HistogramError::Registration(error)),
            }),
    {
        match outcome {
            Ok(_) => Ok(self),
            Err(error) => Err(HistogramError::Registration(error)),
        }
    }
}

/// At some time the registry was asked to take the hit rate metric and answered with this
/// error.
pub open spec fn refused_with(registry: prometheus::Registry, error: prometheus::Error) -> bool {
    exists|vec: HistogramVec|
        {
            &&& is_hit_rate_vec(vec)
            &&& #[trigger] crate::prom::registry_answered(registry, vec, Some(error))
        }
}

/// The place where a process keeps its one histogram.
pub struct HistogramCell {
    made: Option<CacheHitRateHistogram>,
}

impl View for HistogramCell {
    type V = Option<HistogramVec>;

    /// The vector of the histogram that was made, if one was.
    closed spec fn view(&self) -> Option<HistogramVec> {
        match self.made {
            Some(histogram) => Some(histogram.series_vec()),
            None => None,
        }
    }
}

impl HistogramCell {
    /// A cell without a histogram.
    pub fn new() -> (cell: HistogramCell)
        ensures
            cell@ is None,
    {
        HistogramCell { made: None }
    }
}

/// What a call of [`histogram`] does: `before` and `after` are the cell's contents.
///
/// A cell that holds a histogram gives that one, whatever the registry. An empty cell is
/// filled with a histogram that the registry took; where the registry refused it, its error
/// comes back and the cell stays empty.
pub open spec fn is_histogram_of(
    result: Result<CacheHitRateHistogram, HistogramError>,
    before: Option<HistogramVec>,
    registry: prometheus::Registry,
    after: Option<HistogramVec>,
) -> bool {
    match result {
        Ok(histogram) => {
            &&& is_hit_rate_vec(histogram.series_vec())
            &&& after == Some(histogram.series_vec())
            &&& before is Some ==> before == after
            &&& before is None ==> crate::prom::registry_answered(
                registry,
                histogram.series_vec(),
                None,
            )
        },
        Err(HistogramError::Registration(error)) => {
            &&& before is None
            &&& after is None
            &&& refused_with(registry, error)
        },
    }
}

/// The histogram `proxy_cache_hit_rate_per_session{provider}`: made and registered on the
/// first call, and the same one from then on.
///
/// The registry counts on the first call alone. A call on a filled cell always succeeds; one
/// on an empty cell fails only where the registry refuses the metric, with the registry's own
/// error.
pub fn histogram(cell: &mut HistogramCell, registry: &prometheus::Registry) -> (result: Result<
    CacheHitRateHistogram,
    HistogramError,
>)
    ensures
        is_histogram_of(result, old(cell)@, *registry, final(cell)@),
        old(cell)@ matches Some(vec) ==> {
            &&& result matches Ok(histogram) && histogram.series_vec() == vec
            &&& final(cell)@ == old(cell)@
        },
        old(cell)@ is None ==> match result {
            Ok(histogram) => {
                &&& final(cell)@ == Some(histogram.series_vec())
                &&& crate::prom::registry_answered(*registry, histogram.series_vec(), None)
            },
            Err(HistogramError::Registration(error)) => {
                &&& final(cell)@ is None
                &&& refused_with(*registry, error)
            },
        },
{
    if let Some(histogram) = &cell.made {
        return Ok(histogram.handle());
    }
    let histogram = CacheHitRateHistogram::new();
    let outcome = register(registry, clone_vec(&histogram.vec));
    proof {
        if outcome is Err {
            assert(refused_with(*registry, outcome->Err_0));
        }
    }
    match histogram.after_registration(outcome) {
        Ok(histogram) => {
            let handle = histogram.handle();
            cell.made = Some(histogram);
            Ok(handle)
        },
        Err(error) => Err(error),
    }
}

/// A histogram that comes back is kept: the cell holds it, it is the hit rate metric, and
/// where the cell was empty the registry of the call took it.
pub proof fn law_a_given_histogram_is_kept_and_registered(
    histogram: CacheHitRateHistogram,
    before: Option<HistogramVec>,
    registry: prometheus::Registry,
    after: Option<HistogramVec>,
)
    requires
        is_histogram_of(Ok(histogram), before, registry, after),
    ensures
        after == Some(histogram.series_vec()),
        is_hit_rate_vec(histogram.series_vec()),
        before is None ==> crate::prom::registry_answered(registry, histogram.series_vec(), None),
        before is Some ==> before == Some(histogram.series_vec()),
{
}

/// A call fails only on an empty cell, which stays empty, and only where the registry, asked
/// to take a metric of this name and label, refused it with the error that comes back. So a
/// registry that never refused the metric gives it.
pub proof fn law_only_a_refusal_fails(
    result: Result<CacheHitRateHistogram, HistogramError>,
    before: Option<HistogramVec>,
    registry: prometheus::Registry,
    after: Option<HistogramVec>,
)
    requires
        is_histogram_of(result, before, registry, after),
    ensures
        result matches Err(HistogramError::Registration(error)) ==> {
            &&& before is None && after is None
            &&& exists|vec: HistogramVec|
                {
                    &&& crate::prom::vec_desc(vec).name == "proxy_cache_hit_rate_per_session"@
                    &&& crate::prom::vec_desc(vec).label == "provider"@
                    &&& #[trigger] crate::prom::registry_answered(registry, vec, Some(error))
                }
        },
        (forall|vec: HistogramVec, error: prometheus::Error|
            !#[trigger] crate::prom::registry_answered(registry, vec, Some(error)))
            ==> result is Ok,
{
    if let Err(HistogramError::Registration(error)) = result {
        let vec = choose|vec: HistogramVec|
            {
                &&& is_hit_rate_vec(vec)
                &&& #[trigger] crate::prom::registry_answered(registry, vec, Some(error))
            };
        law_metric_has_its_name_label_and_buckets(vec);
        assert(crate::prom::registry_answered(registry, vec, Some(error)));
    }
}

/// A process has one histogram: once a call has given it, every later call on the same cell
/// gives the same one and leaves the cell alone, whatever registry it names.
pub proof fn law_one_histogram_for_each_cell(
    first: Result<CacheHitRateHistogram, HistogramError>,
    before: Option<HistogramVec>,
    registry: prometheus::Registry,
    between: Option<HistogramVec>,
    second: Result<CacheHitRateHistogram, HistogramError>,
    other_registry: prometheus::Registry,
    after: Option<HistogramVec>,
)
    requires
        is_histogram_of(first, before, registry, between),
        first is Ok,
        is_histogram_of(second, between, other_registry, after),
    ensures
        second is Ok,
        second->Ok_0.series_vec() == first->Ok_0.series_vec(),
        after == between,
{
}

/// One session's sample, ready to be recorded.
pub struct Observation<'a> {
    /// The series to record on.
    pub series: prometheus::Histogram,
    /// The provider that the series belongs to.
    pub provider: &'static str,
    /// The request that the session answered.
    pub request_id: &'a str,
    /// The hit rate to record.
    pub hit_rate: Binary64,
}

/// What an observation is made of.
///
/// The rate is the given one, moved into the unit interval. The series is the one that the
/// metric keeps for the provider; what is fixed of it is what is fixed of the metric.
pub open spec fn is_observation_of(
    observation: Observation<'_>,
    histogram: CacheHitRateHistogram,
    provider: Seq<char>,
    request_id: Seq<char>,
    hit_rate: Binary64,
) -> bool {
    let vec = histogram.series_vec();
    let hash = crate::prom::label_value_hash(provider);
    &&& observation.hit_rate == hit_rate.clamped()
    &&& observation.provider@ == provider
    &&& observation.request_id@ == request_id
    &&& observation.series == crate::prom::series_at(vec, hash)
    &&& crate::prom::series_parent(observation.series) == vec
    &&& is_hit_rate_vec(vec)
    &&& crate::prom::label_value_hash(crate::prom::series_label_value(observation.series)) == hash
}

/// Prepares the observation of one session's hit rate.
///
/// The rate is moved into the unit interval: what is recorded lies in it, unless it is a
/// NaN, and a rate that lies in it is recorded as it is. The provider is one of the constants
/// of [`crate::provider`]; it is taken as it is, since the call sites bound its values.
pub fn observe<'a>(
    histogram: &CacheHitRateHistogram,
    provider: &'static str,
    request_id: &'a str,
    hit_rate: Binary64,
) -> (observation: Observation<'a>)
    ensures
        is_observation_of(observation, *histogram, provider@, request_id@, hit_rate),
        observation.series == crate::prom::series_at(
            histogram.series_vec(),
            crate::prom::label_value_hash(provider@),
        ),
        observation.hit_rate == hit_rate.clamped(),
        observation.provider@ == provider@,
        observation.request_id@ == request_id@,
        !hit_rate.is_nan() ==> observation.hit_rate.in_unit_interval(),
        hit_rate.in_unit_interval() ==> observation.hit_rate == hit_rate,
{
    proof {
        use_type_invariant(histogram);
        law_metric_admits_series(histogram.vec);
        if !hit_rate.is_nan() {
            crate::binary64::law_clamped_is_in_unit_interval(hit_rate);
        }
    }
    let series = with_label_value(&histogram.vec, provider);
    Observation { series, provider, request_id, hit_rate: hit_rate.clamp_to_unit_interval() }
}

/// Neither the rate nor the request has a part in the choice of the series: any two
/// observations for one provider on one histogram record on the same series.
pub proof fn law_one_provider_has_one_series(
    histogram: CacheHitRateHistogram,
    provider: Seq<char>,
    request_id: Seq<char>,
    other_request_id: Seq<char>,
    hit_rate: Binary64,
    other_hit_rate: Binary64,
    observation: Observation<'_>,
    other: Observation<'_>,
)
    requires
        is_observation_of(observation, histogram, provider, request_id, hit_rate),
        is_observation_of(other, histogram, provider, other_request_id, other_hit_rate),
    ensures
        observation.series == other.series,
{
}

/// The series of an observation is the histogram's own, and it is exported under a label
/// value with the hash of the provider's: that is the whole key of a series.
pub proof fn law_series_is_the_histograms_own_for_the_provider(
    histogram: CacheHitRateHistogram,
    provider: Seq<char>,
    request_id: Seq<char>,
    hit_rate: Binary64,
    observation: Observation<'_>,
)
    requires
        is_observation_of(observation, histogram, provider, request_id, hit_rate),
    ensures
        crate::prom::series_parent(observation.series) == histogram.series_vec(),
        crate::prom::label_value_hash(crate::prom::series_label_value(observation.series))
            == crate::prom::label_value_hash(provider),
{
}

/// A provider's series is exported under the provider's own label value, unless it was made
/// for a string outside the vocabulary that has the very same hash. In particular it is never
/// exported under the label value of another provider, nor under an empty one.
pub proof fn law_providers_are_exported_under_their_own_label(
    histogram: CacheHitRateHistogram,
    i: int,
    request_id: Seq<char>,
    hit_rate: Binary64,
    observation: Observation<'_>,
)
    requires
        0 <= i < crate::provider::vocabulary().len(),
        is_observation_of(
            observation,
            histogram,
            crate::provider::vocabulary()[i],
            request_id,
            hit_rate,
        ),
    ensures
        ({
            let label = crate::prom::series_label_value(observation.series);
            let provider = crate::provider::vocabulary()[i];
            ||| label == provider
            ||| {
                &&& !crate::provider::vocabulary().contains(label)
                &&& label.len() > 0
                &&& crate::prom::label_value_hash(label) == crate::prom::label_value_hash(provider)
            }
        }),
{
    let label = crate::prom::series_label_value(observation.series);
    crate::provider::law_provider_hashes_are_distinct();
    crate::provider::law_no_provider_hashes_like_the_empty_label(i);
    if crate::provider::vocabulary().contains(label) {
        let j = choose|j: int|
            0 <= j < crate::provider::vocabulary().len() && crate::provider::vocabulary()[j]
                == label;
        assert(j == i);
    }
    if label.len() == 0 {
        assert(label =~= Seq::<char>::empty());
    }
}

/// Label values with different hashes have different series.
pub proof fn law_label_values_have_series_of_their_own(
    histogram: CacheHitRateHistogram,
    provider: Seq<char>,
    other_provider: Seq<char>,
    request_id: Seq<char>,
    other_request_id: Seq<char>,
    hit_rate: Binary64,
    other_hit_rate: Binary64,
    observation: Observation<'_>,
    other: Observation<'_>,
)
    requires
        crate::prom::label_value_hash(provider) != crate::prom::label_value_hash(other_provider),
        is_observation_of(observation, histogram, provider, request_id, hit_rate),
        is_observation_of(other, histogram, other_provider, other_request_id, other_hit_rate),
    ensures
        observation.series != other.series,
{
}

/// An observation carries its provider and its request as they are, and a rate in the unit
/// interval, or a NaN, bit for bit; a rate below becomes positive zero and one above becomes
/// one.
pub proof fn law_observation_carries_what_it_was_given(
    histogram: CacheHitRateHistogram,
    provider: Seq<char>,
    request_id: Seq<char>,
    hit_rate: Binary64,
    observation: Observation<'_>,
)
    requires
        is_observation_of(observation, histogram, provider, request_id, hit_rate),
    ensures
        observation.provider@ == provider,
        observation.request_id@ == request_id,
        hit_rate.in_unit_interval() || hit_rate.is_nan() ==> observation.hit_rate.bits
            == hit_rate.bits,
        hit_rate.below_zero() ==> observation.hit_rate.bits == 0,
        hit_rate.above_one() ==> observation.hit_rate.bits == 0x3ff0_0000_0000_0000,
{
    crate::binary64::law_clamping_keeps_what_is_inside(hit_rate);
    crate::binary64::law_clamping_moves_to_the_nearer_end(hit_rate);
}

/// Recording keeps the order of rates: of two finite rates the larger one is recorded as no
/// less, whatever providers and requests they are observed for.
pub proof fn law_recording_keeps_the_order_of_rates(
    histogram: CacheHitRateHistogram,
    other_histogram: CacheHitRateHistogram,
    provider: Seq<char>,
    other_provider: Seq<char>,
    request_id: Seq<char>,
    other_request_id: Seq<char>,
    hit_rate: Binary64,
    other_hit_rate: Binary64,
    observation: Observation<'_>,
    other: Observation<'_>,
)
    requires
        is_observation_of(observation, histogram, provider, request_id, hit_rate),
        is_observation_of(other, other_histogram, other_provider, other_request_id, other_hit_rate),
        !hit_rate.is_nan() && !hit_rate.is_infinite(),
        !other_hit_rate.is_nan() && !other_hit_rate.is_infinite(),
        hit_rate.signed_units() <= other_hit_rate.signed_units(),
    ensures
        observation.hit_rate.signed_units() <= other.hit_rate.signed_units(),
{
    crate::binary64::law_clamping_is_monotone(hit_rate, other_hit_rate);
}

/// The request id has no part in what is recorded: two observations of one rate for one
/// provider record the same sample on the same series, whatever requests they are made for.
pub proof fn law_request_id_never_changes_what_is_recorded(
    histogram: CacheHitRateHistogram,
    provider: Seq<char>,
    request_id: Seq<char>,
    other_request_id: Seq<char>,
    hit_rate: Binary64,
    observation: Observation<'_>,
    other: Observation<'_>,
)
    requires
        is_observation_of(observation, histogram, provider, request_id, hit_rate),
        is_observation_of(other, histogram, provider, other_request_id, hit_rate),
    ensures
        observation.series == other.series,
        observation.hit_rate == other.hit_rate,
        observation.provider@ == other.provider@,
{
}

/// Every provider has a series of its own: observations for different providers record on
/// different series.
pub proof fn law_providers_have_series_of_their_own(
    histogram: CacheHitRateHistogram,
    i: int,
    j: int,
    request_id: Seq<char>,
    other_request_id: Seq<char>,
    hit_rate: Binary64,
    other_hit_rate: Binary64,
    observation: Observation<'_>,
    other: Observation<'_>,
)
    requires
        0 <= i < crate::provider::vocabulary().len(),
        0 <= j < crate::provider::vocabulary().len(),
        i != j,
        is_observation_of(
            observation,
            histogram,
            crate::provider::vocabulary()[i],
            request_id,
            hit_rate,
        ),
        is_observation_of(
            other,
            histogram,
            crate::provider::vocabulary()[j],
            other_request_id,
            other_hit_rate,
        ),
    ensures
        observation.series != other.series,
{
    crate::provider::law_provider_hashes_are_distinct();
}

/// The exported buckets tell the ends of the unit interval apart: of the samples in it, the
/// first bucket counts those that are zero and no others, the bucket of ninety-nine
/// hundredths those up to that number, rounded, which one is not, and the last bucket all.
pub proof fn law_recorded_samples_are_told_apart_at_the_ends(
    histogram: CacheHitRateHistogram,
    provider: Seq<char>,
    request_id: Seq<char>,
    hit_rate: Binary64,
    observation: Observation<'_>,
    limit: Binary64,
)
    requires
        is_observation_of(observation, histogram, provider, request_id, hit_rate),
        hit_rate.in_unit_interval(),
        limit.is_rounding_of(crate::hit_rate::Fraction::hundredths(99)),
    ensures
        ({
            let bounds = crate::prom::vec_bounds(crate::prom::series_parent(observation.series));
            let sample = observation.hit_rate;
            &&& sample == hit_rate
            &&& sample.at_most(bounds[0]) <==> hit_rate.signed_units() == 0
            &&& sample.at_most(bounds[9]) <==> hit_rate.at_most(limit)
            &&& hit_rate.bits == crate::binary64::ONE ==> !sample.at_most(bounds[9])
            &&& sample.at_most(bounds[10])
        }),
{
    let bounds = crate::prom::vec_bounds(crate::prom::series_parent(observation.series));
    crate::binary64::law_clamping_keeps_what_is_inside(hit_rate);
    crate::buckets::law_first_exported_bucket_counts_only_zero(bounds, hit_rate);
    crate::buckets::law_exported_bucket_below_the_last_leaves_one_out(bounds, hit_rate, limit);
    crate::buckets::law_last_exported_bucket_counts_every_sample(bounds, hit_rate);
    crate::rounding::law_units_of_one(hit_rate);
}

} // verus!
