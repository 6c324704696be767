use cache_hit_rate::binary64::{
    NEGATIVE_INFINITY, NEGATIVE_ZERO, ONE, POSITIVE_INFINITY, POSITIVE_ZERO,
};
use cache_hit_rate::Binary64;

fn number(x: f64) -> Binary64 {
    Binary64 { bits: x.to_bits() }
}

fn samples() -> Vec<f64> {
    vec![
        0.0,
        -0.0,
        5e-324,
        -5e-324,
        f64::MIN_POSITIVE,
        -f64::MIN_POSITIVE,
        0.25,
        -0.25,
        0.8,
        1.0 - f64::EPSILON / 2.0,
        1.0,
        1.0 + f64::EPSILON,
        -1.0,
        1.5,
        2.0,
        f64::MAX,
        f64::MIN,
        f64::INFINITY,
        f64::NEG_INFINITY,
    ]
}

#[test]
fn constants_are_the_patterns_of_their_numbers() {
    assert_eq!(POSITIVE_ZERO, 0.0f64.to_bits());
    assert_eq!(NEGATIVE_ZERO, (-0.0f64).to_bits());
    assert_eq!(ONE, 1.0f64.to_bits());
    assert_eq!(POSITIVE_INFINITY, f64::INFINITY.to_bits());
    assert_eq!(NEGATIVE_INFINITY, f64::NEG_INFINITY.to_bits());
}

#[test]
fn range_test_agrees_with_the_machine() {
    for x in samples() {
        assert_eq!(number(x).is_in_unit_interval(), (0.0..=1.0).contains(&x), "{x}");
    }
    assert!(!number(f64::NAN).is_in_unit_interval());
    assert!(!number(-f64::NAN).is_in_unit_interval());
}

#[test]
fn clamping_agrees_with_the_machine() {
    for x in samples() {
        assert_eq!(number(x).clamp_to_unit_interval(), number(x.clamp(0.0, 1.0)), "{x}");
    }
}

#[test]
fn clamping_moves_to_the_nearer_end() {
    assert_eq!(number(-3.5).clamp_to_unit_interval(), number(0.0));
    assert_eq!(number(f64::NEG_INFINITY).clamp_to_unit_interval(), number(0.0));
    assert_eq!(number(1.0 + f64::EPSILON).clamp_to_unit_interval(), number(1.0));
    assert_eq!(number(f64::INFINITY).clamp_to_unit_interval(), number(1.0));
}

#[test]
fn clamping_keeps_what_is_inside() {
    for x in [0.0, -0.0, 5e-324, 0.3, 0.8, 1.0] {
        assert_eq!(number(x).clamp_to_unit_interval(), number(x));
    }
}

#[test]
fn clamping_keeps_a_nan() {
    for bits in [
        POSITIVE_INFINITY + 1,
        0x7ff8_0000_0000_0000,
        NEGATIVE_ZERO - 1,
        NEGATIVE_INFINITY + 1,
        0xfff8_0000_0000_0000,
        u64::MAX,
    ] {
        assert!(f64::from_bits(bits).is_nan());
        assert_eq!(Binary64 { bits }.clamp_to_unit_interval(), Binary64 { bits });
    }
}

#[test]
fn clamping_twice_is_clamping_once() {
    for x in samples() {
        let once = number(x).clamp_to_unit_interval();
        assert!(once.is_in_unit_interval());
        assert_eq!(once.clamp_to_unit_interval(), once);
    }
}

#[test]
fn clamping_keeps_rounded_quotients() {
    for (n, d) in [(0, 7), (1, 3), (800, 1000), (u64::MAX - 1, u64::MAX), (9, 9)] {
        let q = number(n as f64 / d as f64);
        assert!(q.is_in_unit_interval());
        assert_eq!(q.clamp_to_unit_interval(), q);
    }
}
