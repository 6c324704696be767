//! Per-session cache hit rate: the rate itself, and the histogram it is observed on.
//!
//! A session's hit rate is the share of its input tokens that a provider read from its
//! prompt cache. [`compute_hit_rate`] computes it from the counters of a usage report,
//! [`histogram`](histogram::histogram) makes and registers the metric
//! `proxy_cache_hit_rate_per_session`, and [`observe`] prepares one observation.

pub mod binary64;
pub mod buckets;
pub mod histogram;
pub mod hit_rate;
pub mod metric_names;
pub mod prom;
pub mod provider;
pub mod rounding;

pub use crate::binary64::Binary64;
pub use crate::histogram::{
    histogram, observe, CacheHitRateHistogram, HistogramCell, HistogramError, Observation,
};
pub use crate::hit_rate::{compute_hit_rate, HitRate};
