# cache_hit_rate

Per-session cache hit rate of a proxy for language model providers, written and proved in
Verus.

For every completed session the proxy records one sample on the Prometheus histogram
`proxy_cache_hit_rate_per_session`, labelled by provider: the input tokens read from the
prompt cache over all input tokens. A session without input tokens is skipped.

- `src/hit_rate.rs`: the rate as an exact fraction, and its laws.
- `src/binary64.rs`: floating-point samples by their bit pattern; the range test and the
  clamping of a sample to the unit interval.
- `src/buckets.rs`: the histogram's buckets and what they tell apart.
- `src/rounding.rs`: rounding to nearest, and what it keeps of exact rates and bounds.
- `src/provider.rs`, `src/metric_names.rs`: the label vocabulary and the metric's names.
- `src/histogram.rs`: making and registering the metric once for each process; preparing an
  observation.
- `src/prom.rs`: the calls into the `prometheus` crate, with the contracts taken on trust.
- `app/`: one registry and one histogram for each process, the floating-point division, and
  the recording of samples.
