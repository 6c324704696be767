//! The part of the `prometheus` crate that the library builds on.
//!
//! Every function here hands its arguments to that crate. The contracts say what its
//! source shows of the results; they are taken on trust.

use crate::binary64::Binary64;
use vstd::prelude::*;

verus! {

/// `prometheus::Registry`: the collectors whose metrics are exported together.
#[verifier::external_type_specification]
#[verifier::external_body]
pub struct ExRegistry(prometheus::Registry);

/// `prometheus::Histogram`: one series of a histogram metric.
#[verifier::external_type_specification]
#[verifier::external_body]
pub struct ExHistogram(prometheus::Histogram);

/// `prometheus::Error`.
#[verifier::external_type_specification]
#[verifier::external_body]
pub struct ExError(prometheus::Error);

/// A `prometheus::HistogramVec`: the series of one histogram metric, by label value.
///
/// The type is generic in a builder that its crate keeps private, so it is held as a whole.
#[verifier::external_body]
pub struct HistogramVec {
    inner: prometheus::HistogramVec,
}

/// What is fixed of a histogram metric when it is made.
pub struct HistogramDesc {
    /// The metric's name.
    pub name: Seq<char>,
    /// The metric's help text.
    pub help: Seq<char>,
    /// The name of the one label whose values tell the series apart.
    pub label: Seq<char>,
    /// The upper bounds of the buckets, in hundredths.
    pub bounds: Seq<u8>,
}

/// A letter or an underscore.
pub open spec fn is_name_start(c: char) -> bool {
    'a' <= c <= 'z' || 'A' <= c <= 'Z' || c == '_'
}

/// A decimal digit.
pub open spec fn is_digit(c: char) -> bool {
    '0' <= c <= '9'
}

/// Letters, underscores, colons and digits, with no digit in front.
pub open spec fn is_metric_name(name: Seq<char>) -> bool {
    &&& name.len() > 0
    &&& !is_digit(name[0])
    &&& forall|i: int|
        0 <= i < name.len() ==> is_name_start(#[trigger] name[i]) || name[i] == ':' || is_digit(
            name[i],
        )
}

/// Letters, underscores and digits, with no digit in front.
pub open spec fn is_label_name(name: Seq<char>) -> bool {
    &&& name.len() > 0
    &&& !is_digit(name[0])
    &&& forall|i: int|
        0 <= i < name.len() ==> is_name_start(#[trigger] name[i]) || is_digit(name[i])
}

impl HistogramDesc {
    /// A metric can be made: its name and its label are well formed and its help text is
    /// not empty.
    pub open spec fn is_well_formed(self) -> bool {
        &&& is_metric_name(self.name)
        &&& self.help.len() > 0
        &&& is_label_name(self.label)
    }
}

/// What was fixed of the vector when it was made.
pub uninterp spec fn vec_desc(vec: HistogramVec) -> HistogramDesc;

/// The upper bounds that the vector was made with, as floating-point numbers. Where there are
/// any, they are the ones that its series export.
pub uninterp spec fn vec_bounds(vec: HistogramVec) -> Seq<Binary64>;

/// A series of the vector can be made: the label does not clash with the one that names the
/// buckets, and there are buckets, with increasing bounds.
pub open spec fn admits_series(vec: HistogramVec) -> bool {
    &&& vec_desc(vec).label != seq!['l', 'e']
    &&& vec_bounds(vec).len() > 0
    &&& crate::rounding::numbers_increase(vec_bounds(vec))
}

/// The vector that made the series and exports it.
pub uninterp spec fn series_parent(series: prometheus::Histogram) -> HistogramVec;

/// The label value that the series is exported under.
pub uninterp spec fn series_label_value(series: prometheus::Histogram) -> Seq<char>;

/// One step of the FNV-1a hash: a byte is mixed into the hash of the bytes before it.
pub open spec fn fnv1a_step(hash: u64, byte: u8) -> u64 {
    ((hash ^ (byte as u64)) * 0x100_0000_01b3u64) as u64
}

/// The 64-bit FNV-1a hash of the bytes.
pub open spec fn fnv1a(bytes: Seq<u8>) -> u64
    decreases bytes.len(),
{
    if bytes.len() == 0 {
        0xcbf2_9ce4_8422_2325
    } else {
        fnv1a_step(fnv1a(bytes.drop_last()), bytes.last())
    }
}

/// The hash by which a vector finds the series of a label value.
pub open spec fn label_value_hash(value: Seq<char>) -> u64 {
    fnv1a(vstd::utf8::encode_utf8(value))
}

/// The series that a vector keeps under a hash. It is made when it is first looked up and
/// stays the vector's from then on: nothing here takes a series out of a vector.
pub uninterp spec fn series_at(vec: HistogramVec, hash: u64) -> prometheus::Histogram;

/// At some time the registry was asked to take the vector, and answered with this error or,
/// where there is none, took it.
pub uninterp spec fn registry_answered(
    registry: prometheus::Registry,
    vec: HistogramVec,
    refusal: Option<prometheus::Error>,
) -> bool;

/// Calls `prometheus::HistogramVec::new`, on options made by
/// `prometheus::HistogramOpts::new` and its `buckets`.
///
/// The call succeeds exactly where the descriptor is well formed; bounds are not looked at
/// before the first series is made. Each bound goes in as the decimal number of hundredths,
/// which `str::parse` rounds to the nearest floating-point number. Which message an error
/// carries is not stated.
#[verifier::external_body]
pub(crate) fn new_histogram_vec(name: &str, help: &str, label: &str, bounds: &[u8]) -> (vec: Result<
    HistogramVec,
    prometheus::Error,
>)
    ensures
        vec is Ok <==> (HistogramDesc {
            name: name@,
            help: help@,
            label: label@,
            bounds: bounds@,
        }).is_well_formed(),
        vec matches Ok(v) ==> vec_desc(v) == (HistogramDesc {
            name: name@,
            help: help@,
            label: label@,
            bounds: bounds@,
        }),
        vec matches Ok(v) ==> crate::rounding::are_rounded_hundredths(vec_bounds(v), bounds@),
{
    let bounds = bounds.iter().map(|b| format!("{}e-2", b).parse().unwrap()).collect();
    let opts = prometheus::HistogramOpts::new(name, help).buckets(bounds);
    let inner = prometheus::HistogramVec::new(opts, &[label])?;
    Ok(HistogramVec { inner })
}

/// Calls `Clone::clone` of `prometheus::HistogramVec`.
///
/// The clone is another handle of the same vector: it has the same series.
#[verifier::external_body]
pub(crate) fn clone_vec(vec: &HistogramVec) -> (clone: HistogramVec)
    ensures
        clone == *vec,
{
    HistogramVec { inner: vec.inner.clone() }
}

/// Calls `prometheus::Registry::register`.
///
/// A registry is asked to take the hit rate metric and no other. The outcome is the
/// registry's answer to this very call. Whether the registry accepts the
/// vector rests on what was registered before, which is not stated.
#[verifier::external_body]
pub(crate) fn register(registry: &prometheus::Registry, vec: HistogramVec) -> (outcome: Result<
    (),
    prometheus::Error,
>)
    requires
        crate::histogram::is_hit_rate_vec(vec),
    ensures
        match outcome {
            Ok(_) => registry_answered(*registry, vec, None),
            Err(error) => registry_answered(*registry, vec, Some(error)),
        },
{
    registry.register(Box::new(vec.inner))
}

/// Calls `prometheus::HistogramVec::with_label_values` with one value, which is part of the
/// program: no label value comes from a request.
///
/// The vector finds a series by the hash of its label value alone: the series that comes
/// back is the one that the vector keeps under this hash, whenever it is asked, and was made
/// for this value or for one with the same hash.
#[verifier::external_body]
pub(crate) fn with_label_value(vec: &HistogramVec, value: &'static str) -> (series:
    prometheus::Histogram)
    requires
        admits_series(*vec),
    ensures
        series == series_at(*vec, label_value_hash(value@)),
        series_parent(series) == *vec,
        label_value_hash(series_label_value(series)) == label_value_hash(value@),
{
    vec.inner.with_label_values(&[value])
}

} // verus!
