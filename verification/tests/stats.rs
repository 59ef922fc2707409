use cycle_probe::profile::{next_mean, ratio_at_most, Profile};

fn folded(name: &'static str, samples: &[(u64, u64)]) -> Profile {
    let mut p = Profile::new(name);
    for &(cycles, bytes) in samples {
        p.fold(cycles, bytes);
    }
    p
}

#[test]
fn new_record_is_all_zero() {
    let p = Profile::new("fresh");
    assert_eq!(p.name, "fresh");
    assert_eq!(
        (p.cycles_min, p.cycles_max, p.cycles_avg, p.bytes_min, p.bytes_max, p.bytes_avg, p.samples),
        (0, 0, 0, 0, 0, 0, 0)
    );
}

#[test]
fn three_samples_of_equal_size() {
    let p = folded("three", &[(100, 10), (50, 10), (200, 10)]);
    assert_eq!(p.cycles_min, 50);
    assert_eq!(p.bytes_min, 10);
    assert_eq!(p.cycles_max, 200);
    assert_eq!(p.bytes_max, 10);
    assert_eq!(p.cycles_avg, 116);
    assert_eq!(p.bytes_avg, 10);
    assert_eq!(p.samples, 3);
    assert_eq!(p.name, "three");
}

#[test]
fn first_sample_is_both_extremes() {
    let p = folded("one", &[(7, 3)]);
    assert_eq!((p.cycles_min, p.bytes_min), (7, 3));
    assert_eq!((p.cycles_max, p.bytes_max), (7, 3));
    assert_eq!((p.cycles_avg, p.bytes_avg), (7, 3));
    assert_eq!(p.samples, 1);
}

#[test]
fn zero_cycle_samples_are_discarded() {
    let samples = [(0, 5), (10, 1), (0, 0), (20, 1), (0, 9)];
    let p = folded("gaps", &samples);
    let discarded = samples.iter().filter(|s| s.0 == 0).count() as u64;
    assert_eq!(p.samples, samples.len() as u64 - discarded);
    assert_eq!(p.samples, 2);
    assert_eq!(p, folded("gaps", &[(10, 1), (20, 1)]));
    let mut q = Profile::new("only zero");
    q.fold(0, 100);
    assert_eq!(q, Profile::new("only zero"));
}

#[test]
fn extremes_bound_every_sample() {
    let samples = [(100, 10), (3, 1), (50, 0), (9, 4), (1000, 7), (1, 1000), (0, 3), (8, 8)];
    let p = folded("bounds", &samples);
    for &(c, b) in samples.iter().filter(|s| s.0 > 0) {
        assert!((p.cycles_min as u128) * (b as u128) <= (c as u128) * (p.bytes_min as u128));
        assert!((c as u128) * (p.bytes_max as u128) <= (p.cycles_max as u128) * (b as u128));
    }
    assert_eq!((p.cycles_min, p.bytes_min), (1, 1000));
    assert_eq!((p.cycles_max, p.bytes_max), (50, 0));
}

#[test]
fn ties_go_to_the_newest_sample() {
    let p = folded("ties", &[(10, 5), (20, 10), (2, 1)]);
    assert_eq!((p.cycles_min, p.bytes_min), (2, 1));
    assert_eq!((p.cycles_max, p.bytes_max), (2, 1));
}

#[test]
fn samples_without_bytes_are_the_slowest() {
    let p = folded("empty", &[(10, 5), (10, 0)]);
    assert_eq!((p.cycles_min, p.bytes_min), (10, 5));
    assert_eq!((p.cycles_max, p.bytes_max), (10, 0));
    let q = folded("empty", &[(10, 0), (5, 0)]);
    assert_eq!((q.cycles_min, q.bytes_min), (5, 0));
    assert_eq!((q.cycles_max, q.bytes_max), (5, 0));
}

#[test]
fn mean_follows_the_incremental_formula() {
    let samples = [(1u64, 9u64), (2, 8), (3, 1), (0, 77), (1000, 3), (17, 0)];
    let p = folded("mean", &samples);
    let mut cycles: u128 = 0;
    let mut bytes: u128 = 0;
    let mut n: u128 = 0;
    for &(c, b) in samples.iter().filter(|s| s.0 > 0) {
        cycles = (cycles * n + c as u128) / (n + 1);
        bytes = (bytes * n + b as u128) / (n + 1);
        n += 1;
    }
    assert_eq!(p.cycles_avg as u128, cycles);
    assert_eq!(p.bytes_avg as u128, bytes);
    assert_eq!(p.cycles_avg, 203);
    assert_eq!(p.bytes_avg, 3);
}

#[test]
fn mean_truncates_at_every_step() {
    let p = folded("drift", &[(1, 1), (2, 1), (3, 1)]);
    assert_eq!(p.cycles_avg, 1);
    assert_eq!(p.samples, 3);
}

#[test]
fn mean_of_large_values_is_exact() {
    let p = folded("large", &[(u64::MAX, u64::MAX), (u64::MAX, u64::MAX), (u64::MAX, 1)]);
    assert_eq!(p.cycles_avg, u64::MAX);
    assert_eq!(p.bytes_avg, 12297829382473034410);
    assert_eq!(p.samples, 3);
}

#[test]
fn full_counter_takes_no_more_samples() {
    let mut p = Profile::new("full");
    p.fold(4, 2);
    p.samples = u64::MAX;
    let before = p;
    p.fold(1, 1000);
    assert_eq!(p, before);
}

#[test]
fn ratio_comparison_is_by_cross_multiplication() {
    assert!(ratio_at_most(1, 2, 2, 3));
    assert!(!ratio_at_most(2, 3, 1, 2));
    assert!(ratio_at_most(2, 4, 1, 2));
    assert!(ratio_at_most(u64::MAX, u64::MAX, u64::MAX, u64::MAX - 1));
    assert!(!ratio_at_most(u64::MAX, u64::MAX - 1, u64::MAX, u64::MAX));
    assert!(ratio_at_most(5, 0, 0, 0));
    assert!(!ratio_at_most(5, 0, 5, 1));
}

#[test]
fn next_mean_is_the_truncated_step() {
    assert_eq!(next_mean(75, 2, 200), 116);
    assert_eq!(next_mean(0, 0, 9), 9);
    assert_eq!(next_mean(u64::MAX, u64::MAX - 1, u64::MAX), u64::MAX);
    assert_eq!(next_mean(u64::MAX, u64::MAX - 1, 0), u64::MAX - 1);
}
