use cache_hit_rate::buckets::CACHE_HIT_RATE_BUCKETS;
use cache_hit_rate::provider;
use cache_hit_rate::{
    compute_hit_rate, histogram, observe, Binary64, CacheHitRateHistogram, HistogramCell,
    HistogramError,
};
use prometheus::proto::MetricFamily;
use prometheus::Registry;

const BOUNDS: [f64; 11] = [0.0, 0.01, 0.05, 0.1, 0.25, 0.5, 0.75, 0.9, 0.95, 0.99, 1.0];

/// The histogram of a fresh cell.
fn made_for(registry: &Registry) -> CacheHitRateHistogram {
    histogram(&mut HistogramCell::new(), registry).unwrap_or_else(|e| panic!("{e:?}"))
}

/// Records one sample as a caller does.
fn record(hist: &CacheHitRateHistogram, provider: &'static str, rate: f64) {
    let bits = rate.to_bits();
    let observation = observe(hist, provider, "req", Binary64 { bits });
    observation.series.observe(f64::from_bits(observation.hit_rate.bits));
}

fn family(registry: &Registry) -> MetricFamily {
    let mut families = registry.gather();
    assert_eq!(families.len(), 1);
    families.remove(0)
}

/// The bucket that the only sample of the only series fell into.
fn only_bucket(family: &MetricFamily) -> usize {
    assert_eq!(family.get_metric().len(), 1);
    let buckets = family.get_metric()[0].get_histogram().get_bucket();
    buckets.iter().position(|b| b.get_cumulative_count() == 1).unwrap()
}

#[test]
fn metric_has_its_name_help_label_and_buckets() {
    let registry = Registry::new();
    let hist = made_for(&registry);
    record(&hist, provider::ANTHROPIC, 0.5);

    let family = family(&registry);
    assert_eq!(family.get_name(), "proxy_cache_hit_rate_per_session");
    assert_eq!(family.get_help(), "Per-session cache hit rate.");
    let labels = family.get_metric()[0].get_label();
    assert_eq!(labels.len(), 1);
    assert_eq!(labels[0].get_name(), "provider");
    assert_eq!(labels[0].get_value(), "anthropic");
    let bounds: Vec<f64> = family.get_metric()[0]
        .get_histogram()
        .get_bucket()
        .iter()
        .map(|b| b.get_upper_bound())
        .collect();
    assert_eq!(bounds, BOUNDS.to_vec());
}

#[test]
fn bounds_are_hundredths_of_the_exported_ones() {
    for (percent, bound) in CACHE_HIT_RATE_BUCKETS.iter().zip(BOUNDS) {
        assert_eq!(*percent as f64 / 100.0, bound);
    }
    assert!(CACHE_HIT_RATE_BUCKETS.windows(2).all(|w| w[0] < w[1]));
}

#[test]
fn a_session_is_observed_once() {
    // 200 fresh and 800 read: a rate of 0.8, in the bucket from 0.75 to 0.9.
    let registry = Registry::new();
    let hist = made_for(&registry);
    let rate = compute_hit_rate(200, 800, 0).unwrap();
    let rate = rate.cache_read_tokens() as f64 / rate.total_tokens() as f64;
    record(&hist, provider::ANTHROPIC, rate);

    let family = family(&registry);
    let samples = family.get_metric()[0].get_histogram();
    assert_eq!(samples.get_sample_count(), 1);
    assert_eq!(samples.get_sample_sum(), 0.8);
    assert_eq!(BOUNDS[only_bucket(&family)], 0.9);
}

#[test]
fn nothing_is_exported_before_the_first_observation() {
    let registry = Registry::new();
    let _hist = made_for(&registry);
    assert!(registry.gather().is_empty());
}

#[test]
fn providers_have_series_of_their_own() {
    let registry = Registry::new();
    let hist = made_for(&registry);
    record(&hist, provider::ANTHROPIC, 0.1);
    record(&hist, provider::OPENAI_CHAT, 0.2);
    record(&hist, provider::OPENAI_CHAT, 0.2);
    record(&hist, provider::OPENAI_RESPONSES, 0.3);

    let family = family(&registry);
    let series: Vec<(String, u64)> = family
        .get_metric()
        .iter()
        .map(|m| {
            let value = m.get_label()[0].get_value().to_string();
            (value, m.get_histogram().get_sample_count())
        })
        .collect();
    assert_eq!(
        series,
        vec![
            ("anthropic".to_string(), 1),
            ("openai_chat".to_string(), 2),
            ("openai_responses".to_string(), 1),
        ]
    );
}

#[test]
fn a_registry_takes_the_metric_once() {
    let registry = Registry::new();
    let mut cell = HistogramCell::new();
    let _hist = made_for(&registry);
    match histogram(&mut cell, &registry) {
        Err(HistogramError::Registration(prometheus::Error::AlreadyReg)) => {}
        _ => panic!("the second registration must be refused"),
    }
    // The cell stayed empty: a registry that takes the metric fills it.
    let other = Registry::new();
    let hist = histogram(&mut cell, &other).unwrap_or_else(|e| panic!("{e:?}"));
    record(&hist, provider::ANTHROPIC, 0.5);
    assert_eq!(family(&other).get_metric().len(), 1);
}

#[test]
fn a_cell_gives_the_same_histogram_from_the_first_call_on() {
    let registry = Registry::new();
    let elsewhere = Registry::new();
    let mut cell = HistogramCell::new();
    let first = histogram(&mut cell, &registry).unwrap_or_else(|e| panic!("{e:?}"));
    let second = histogram(&mut cell, &registry).unwrap_or_else(|e| panic!("{e:?}"));
    let third = histogram(&mut cell, &elsewhere).unwrap_or_else(|e| panic!("{e:?}"));
    for hist in [&first, &second, &third] {
        record(hist, provider::ANTHROPIC, 0.5);
    }
    let family = family(&registry);
    assert_eq!(family.get_metric().len(), 1);
    assert_eq!(family.get_metric()[0].get_histogram().get_sample_count(), 3);
    assert!(elsewhere.gather().is_empty());
}

#[test]
fn a_handle_is_the_same_histogram() {
    let registry = Registry::new();
    let hist = made_for(&registry);
    record(&hist.handle(), provider::OPENAI_CHAT, 0.5);
    record(&hist, provider::OPENAI_CHAT, 0.5);
    assert_eq!(family(&registry).get_metric()[0].get_histogram().get_sample_count(), 2);
}

#[test]
fn the_outcome_of_the_registration_decides() {
    assert!(CacheHitRateHistogram::new().after_registration(Ok(())).is_ok());
    let refused = Err(prometheus::Error::Msg("no".to_string()));
    match CacheHitRateHistogram::new().after_registration(refused) {
        Err(HistogramError::Registration(prometheus::Error::Msg(m))) => assert_eq!(m, "no"),
        _ => panic!("the registry's error must come back"),
    }
}

#[test]
fn an_observation_carries_what_it_was_given() {
    let hist = CacheHitRateHistogram::new();
    let bits = 0.25f64.to_bits();
    let observation = observe(&hist, provider::OPENAI_CHAT, "request-7", Binary64 { bits });
    assert_eq!(observation.provider, "openai_chat");
    assert_eq!(observation.request_id, "request-7");
    assert_eq!(observation.hit_rate.bits, bits);
}

#[test]
fn a_label_outside_the_vocabulary_is_taken_as_it_is() {
    let registry = Registry::new();
    let hist = made_for(&registry);
    record(&hist, "elsewhere", 0.5);
    assert_eq!(family(&registry).get_metric()[0].get_label()[0].get_value(), "elsewhere");
}

#[test]
fn rates_outside_the_unit_interval_are_recorded_at_its_ends() {
    for (rate, recorded) in [(-0.5, 0.0), (1.5, 1.0), (f64::INFINITY, 1.0)] {
        let registry = Registry::new();
        let hist = made_for(&registry);
        record(&hist, provider::ANTHROPIC, rate);
        let family = family(&registry);
        assert_eq!(family.get_metric()[0].get_histogram().get_sample_sum(), recorded);
    }
}

#[test]
fn the_ends_of_the_interval_can_be_told_apart() {
    let bucket = |rate: f64| {
        let registry = Registry::new();
        let hist = made_for(&registry);
        record(&hist, provider::ANTHROPIC, rate);
        only_bucket(&family(&registry))
    };
    assert_eq!(bucket(0.0), 0);
    assert_eq!(bucket(0.001), 1);
    assert_eq!(bucket(0.01), 1);
    assert_eq!(bucket(0.4), 5);
    assert_eq!(bucket(0.6), 6);
    assert_eq!(bucket(0.99), 9);
    assert_eq!(bucket(0.995), 10);
    assert_eq!(bucket(1.0), 10);
}

#[test]
fn provider_labels_are_fixed() {
    assert_eq!(provider::ANTHROPIC, "anthropic");
    assert_eq!(provider::OPENAI_CHAT, "openai_chat");
    assert_eq!(provider::OPENAI_RESPONSES, "openai_responses");
}

#[test]
fn the_request_id_changes_nothing_that_is_recorded() {
    let registry = Registry::new();
    let hist = made_for(&registry);
    let bits = 0.8f64.to_bits();
    for request_id in ["a", "", "another request"] {
        let observation = observe(&hist, provider::ANTHROPIC, request_id, Binary64 { bits });
        assert_eq!(observation.hit_rate.bits, bits);
        observation.series.observe(f64::from_bits(observation.hit_rate.bits));
    }
    let family = family(&registry);
    assert_eq!(family.get_metric().len(), 1);
    assert_eq!(family.get_metric()[0].get_label().len(), 1);
    assert_eq!(family.get_metric()[0].get_histogram().get_sample_count(), 3);
}

#[test]
fn a_rate_on_a_bound_falls_into_the_bucket_of_the_bound() {
    for (bucket, percent) in CACHE_HIT_RATE_BUCKETS.iter().enumerate() {
        let registry = Registry::new();
        let hist = made_for(&registry);
        let rate = compute_hit_rate(100 - *percent as u64, *percent as u64, 0).unwrap();
        let rate = rate.cache_read_tokens() as f64 / rate.total_tokens() as f64;
        record(&hist, provider::ANTHROPIC, rate);
        assert_eq!(only_bucket(&family(&registry)), bucket);
    }
}
