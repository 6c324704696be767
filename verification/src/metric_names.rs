//! The name, help text and label of the hit rate metric.

use vstd::prelude::*;

verus! {

/// The metric's name.
pub const METRIC_PROXY_CACHE_HIT_RATE_PER_SESSION: &'static str =
    "proxy_cache_hit_rate_per_session";

/// The metric's help text.
pub const METRIC_PROXY_CACHE_HIT_RATE_PER_SESSION_HELP: &'static str =
    "Per-session cache hit rate.";

/// The metric's only label.
pub const LABEL_PROVIDER: &'static str = "provider";

} // verus!
