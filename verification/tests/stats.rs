use notify_bench::stats::aggregate;
use notify_bench::stats::isqrt;
use notify_bench::stats::percentile;
use notify_bench::stats::sort_samples;
use notify_bench::stats::window_moments;

#[test]
fn percentile_interpolates_between_neighbours() {
    // percentile([1,2,3,4], 0.5) == 2.5; the result is scaled by the
    // denominator 2, so 5 stands for 5/2.
    let v: Vec<u32> = vec![1, 2, 3, 4];
    assert_eq!(percentile(&v, 1, 2), 5);
}

#[test]
fn percentile_of_single_sample_is_that_sample() {
    // percentile([x], p) == x for any p in [0, 1].
    let v: Vec<u32> = vec![42];
    for (num, den) in [(0u64, 1u64), (1, 1), (1, 2), (3, 7), (99, 100)] {
        assert_eq!(percentile(&v, num, den), 42 * den as u128);
    }
}

#[test]
fn percentile_on_whole_ranks() {
    let v: Vec<u32> = vec![10, 20, 30, 40, 50];
    // p = 1/4 on 5 samples lands exactly on rank 1.
    assert_eq!(percentile(&v, 1, 4), 20 * 4);
    // p = 0 and p = 1 are the extremes.
    assert_eq!(percentile(&v, 0, 4), 10 * 4);
    assert_eq!(percentile(&v, 4, 4), 50 * 4);
}

#[test]
fn sorting_orders_and_keeps_samples() {
    let v: Vec<u32> = vec![5, 1, 4, 1, 3];
    let s = sort_samples(&v);
    assert_eq!(s, vec![1, 1, 3, 4, 5]);
}

#[test]
fn moments_of_known_window() {
    let v: Vec<u32> = vec![4, 1, 3, 2];
    let m = window_moments(&v);
    assert_eq!(m.count, 4);
    assert_eq!(m.min, 1);
    assert_eq!(m.max, 4);
    assert_eq!(m.sum, 10);
    assert_eq!(m.sum_squares, 30);
}

#[test]
fn isqrt_rounds_down() {
    assert_eq!(isqrt(0), 0);
    assert_eq!(isqrt(1), 1);
    assert_eq!(isqrt(49), 7);
    assert_eq!(isqrt(50), 7);
    assert_eq!(isqrt(63), 7);
    assert_eq!(isqrt(64), 8);
}

#[test]
fn basic_statistics_of_known_window() {
    let v: Vec<u32> = vec![1, 2, 3, 4];
    let r = aggregate(&v, false, false);
    assert_eq!(r.moments.count, 4);
    assert_eq!(r.moments.min, 1);
    assert_eq!(r.moments.max, 4);
    assert_eq!(r.moments.sum, 10);
    assert_eq!(r.moments.sum_squares, 30);
    // mean 2.5 us == 2500 ns
    assert_eq!(r.mean_nanos, 2500);
    // population variance 1.25 us^2, stddev 1.118... us == 1118 ns
    assert_eq!(r.stddev_nanos, 1118);
    assert!(r.quartiles.is_none());
    assert!(!r.used_filter);
}

#[test]
fn outlier_filter_excludes_the_stray_sample() {
    // Window [1,2,3,4,5,100]: the fences exclude 100; the filtered max is 5.
    let v: Vec<u32> = vec![1, 2, 3, 4, 5, 100];
    let r = aggregate(&v, true, true);
    assert!(r.used_filter);
    assert_eq!(r.moments.count, 5);
    assert_eq!(r.moments.min, 1);
    assert_eq!(r.moments.max, 5);
    assert_eq!(r.moments.sum, 15);
    // Quartiles are recomputed over the filtered window [1,2,3,4,5],
    // scaled by 4: Q1 = 2, median = 3, Q3 = 4.
    let q = r.quartiles.as_ref().unwrap();
    assert_eq!(q.q1_scaled, 8);
    assert_eq!(q.median_scaled, 12);
    assert_eq!(q.q3_scaled, 16);
}

#[test]
fn unfiltered_extended_statistics_keep_every_sample() {
    let v: Vec<u32> = vec![1, 2, 3, 4, 5, 100];
    let r = aggregate(&v, true, false);
    assert!(!r.used_filter);
    assert_eq!(r.moments.count, 6);
    assert_eq!(r.moments.max, 100);
    // Quartiles over the full sorted window, scaled by 4:
    // Q1 = 2.25 -> 9, median = 3.5 -> 14, Q3 = 4.75 -> 19.
    let q = r.quartiles.as_ref().unwrap();
    assert_eq!(q.q1_scaled, 9);
    assert_eq!(q.median_scaled, 14);
    assert_eq!(q.q3_scaled, 19);
}

#[test]
fn filter_that_discards_nothing_changes_nothing() {
    // A tight window: the fences keep every sample, so filtered and
    // unfiltered statistics agree.
    let v: Vec<u32> = vec![10, 11, 12, 13, 14, 15];
    let filtered = aggregate(&v, true, true);
    let unfiltered = aggregate(&v, true, false);
    assert_eq!(filtered.moments.count, unfiltered.moments.count);
    assert_eq!(filtered.moments.sum, unfiltered.moments.sum);
    assert_eq!(filtered.mean_nanos, unfiltered.mean_nanos);
    assert_eq!(filtered.stddev_nanos, unfiltered.stddev_nanos);
}

#[test]
fn single_sample_window() {
    let v: Vec<u32> = vec![7];
    let r = aggregate(&v, true, true);
    assert_eq!(r.moments.count, 1);
    assert_eq!(r.moments.min, 7);
    assert_eq!(r.moments.max, 7);
    assert_eq!(r.mean_nanos, 7000);
    assert_eq!(r.stddev_nanos, 0);
    let q = r.quartiles.as_ref().unwrap();
    assert_eq!(q.q1_scaled, 28);
    assert_eq!(q.median_scaled, 28);
    assert_eq!(q.q3_scaled, 28);
}

#[test]
fn equal_samples_have_zero_spread() {
    let v: Vec<u32> = vec![9, 9, 9, 9];
    let r = aggregate(&v, false, false);
    assert_eq!(r.mean_nanos, 9000);
    assert_eq!(r.stddev_nanos, 0);
    assert_eq!(r.moments.min, 9);
    assert_eq!(r.moments.max, 9);
}
