use cache_hit_rate::{compute_hit_rate, HitRate};

fn quotient(rate: HitRate) -> f64 {
    rate.cache_read_tokens() as f64 / rate.total_tokens() as f64
}

#[test]
fn hit_rate_zero_when_no_cache_reads() {
    let r = quotient(compute_hit_rate(100, 0, 0).unwrap());
    assert!((r - 0.0).abs() < f64::EPSILON);
}

#[test]
fn hit_rate_one_when_all_reads_are_cache_hits() {
    // No fresh input at all: every input token came from the cache.
    let r = quotient(compute_hit_rate(0, 1000, 0).unwrap());
    assert!((r - 1.0).abs() < f64::EPSILON);
}

#[test]
fn hit_rate_split_three_ways() {
    // 50 fresh, 50 read, 50 written: 50/150.
    let r = quotient(compute_hit_rate(50, 50, 50).unwrap());
    assert!((r - (1.0 / 3.0)).abs() < 1e-9);
}

#[test]
fn hit_rate_none_on_empty_request() {
    assert!(compute_hit_rate(0, 0, 0).is_none());
}

#[test]
fn counts_are_kept_as_they_are() {
    let r = compute_hit_rate(200, 800, 0).unwrap();
    assert_eq!(r.cache_read_tokens(), 800);
    assert_eq!(r.total_tokens(), 1000);

    let r = compute_hit_rate(7, 11, 13).unwrap();
    assert_eq!(r.cache_read_tokens(), 11);
    assert_eq!(r.total_tokens(), 31);
}

#[test]
fn a_single_token_of_any_kind_gives_a_rate() {
    let fresh = compute_hit_rate(1, 0, 0).unwrap();
    assert_eq!((fresh.cache_read_tokens(), fresh.total_tokens()), (0, 1));
    let read = compute_hit_rate(0, 1, 0).unwrap();
    assert_eq!((read.cache_read_tokens(), read.total_tokens()), (1, 1));
    let written = compute_hit_rate(0, 0, 1).unwrap();
    assert_eq!((written.cache_read_tokens(), written.total_tokens()), (0, 1));
}

#[test]
fn total_is_the_full_sum_past_64_bits() {
    let r = compute_hit_rate(u64::MAX, u64::MAX, 0).unwrap();
    assert_eq!(r.cache_read_tokens(), u64::MAX);
    assert_eq!(r.total_tokens(), 2 * (u64::MAX as u128));
    assert_eq!(quotient(r), 0.5);

    let r = compute_hit_rate(u64::MAX, 5, u64::MAX).unwrap();
    assert_eq!(r.cache_read_tokens(), 5);
    assert_eq!(r.total_tokens(), 2 * (u64::MAX as u128) + 5);

    let r = compute_hit_rate(u64::MAX, u64::MAX, u64::MAX).unwrap();
    assert_eq!(r.total_tokens(), 3 * (u64::MAX as u128));
    assert!((quotient(r) - 1.0 / 3.0).abs() < 1e-9);
}

#[test]
fn one_fresh_token_keeps_the_exact_rate_below_one() {
    let r = compute_hit_rate(1, u64::MAX, 0).unwrap();
    assert!((r.cache_read_tokens() as u128) < r.total_tokens());
    let r = compute_hit_rate(0, u64::MAX, 0).unwrap();
    assert_eq!(r.cache_read_tokens() as u128, r.total_tokens());
}

#[test]
fn rounded_rate_is_zero_only_without_cache_reads() {
    assert_eq!(quotient(compute_hit_rate(u64::MAX, 0, u64::MAX).unwrap()), 0.0);
    assert!(quotient(compute_hit_rate(u64::MAX, 1, u64::MAX).unwrap()) > 0.0);
}

#[test]
fn rates_stay_in_unit_interval() {
    let counts = [0, 1, 2, 99, 1 << 53, u64::MAX - 1, u64::MAX];
    for input in counts {
        for read in counts {
            for creation in counts {
                match compute_hit_rate(input, read, creation) {
                    None => assert_eq!((input, read, creation), (0, 0, 0)),
                    Some(r) => {
                        let q = quotient(r);
                        assert!((0.0..=1.0).contains(&q));
                    }
                }
            }
        }
    }
}

#[test]
fn fresh_and_written_tokens_weigh_the_same() {
    let a = compute_hit_rate(30, 10, 60).unwrap();
    let b = compute_hit_rate(85, 10, 5).unwrap();
    assert_eq!(a.cache_read_tokens(), b.cache_read_tokens());
    assert_eq!(a.total_tokens(), b.total_tokens());
}

#[test]
fn more_cache_reads_raise_the_rate() {
    let low = quotient(compute_hit_rate(40, 10, 10).unwrap());
    let high = quotient(compute_hit_rate(40, 50, 10).unwrap());
    assert_eq!((low, high), (10.0 / 60.0, 0.5));
    assert!(low < high);
}

#[test]
fn fewer_other_tokens_raise_the_rate() {
    let low = quotient(compute_hit_rate(40, 50, 10).unwrap());
    assert!(low < quotient(compute_hit_rate(30, 50, 10).unwrap()));
    assert!(low < quotient(compute_hit_rate(40, 50, 0).unwrap()));
    assert_eq!(quotient(compute_hit_rate(0, 50, 0).unwrap()), 1.0);
}

#[test]
fn small_counts_reach_one_only_if_all_is_cached() {
    let all = 1u64 << 53;
    assert_eq!(quotient(compute_hit_rate(0, all, 0).unwrap()), 1.0);
    assert!(quotient(compute_hit_rate(1, all - 1, 0).unwrap()) < 1.0);
}
