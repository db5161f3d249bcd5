use notify_bench::engine::ContinuousEngine;
use notify_bench::engine::DiscreteSchedule;
use notify_bench::engine::FlushPolicy;
use notify_bench::engine::ScalingAction;
use notify_bench::engine::ScalingPhase;
use notify_bench::engine::throughput_milli_per_sec;
use notify_bench::pool::IdlePool;
use notify_bench::probe::ProbeSample;


fn sample(micros: u32) -> ProbeSample {
    ProbeSample { endpoint_id: 1, round_trip_micros: micros }
}

#[test]
fn grow_at_ceiling_adds_nothing_and_is_no_error() {
    let mut pool = IdlePool::new(4);
    pool.record_grown(4);
    assert_eq!(pool.size, 4);
    let quota = pool.grow_quota(3);
    assert_eq!(quota, 0);
    pool.record_grown(quota);
    assert_eq!(pool.size, 4);
    assert_eq!(pool.ceiling, 4);
}

#[test]
fn grow_is_bounded_by_the_ceiling() {
    let mut pool = IdlePool::new(5);
    pool.record_grown(3);
    assert_eq!(pool.grow_quota(10), 2);
    assert_eq!(pool.grow_quota(1), 1);
}

#[test]
fn shrink_removes_at_most_what_is_held() {
    let mut pool = IdlePool::new(10);
    pool.record_grown(3);
    assert_eq!(pool.shrink(2), 2);
    assert_eq!(pool.size, 1);
    assert_eq!(pool.shrink(5), 1);
    assert_eq!(pool.size, 0);
    assert_eq!(pool.shrink(5), 0);
}

#[test]
fn connection_count_is_overhead_plus_pool_size() {
    // At every flush the row reports fixed_overhead + idle-pool size.
    let mut engine = ContinuousEngine::new(10, 2, 3, FlushPolicy::Fixed(4), false, false, String::from("dev"));
    let mut expected_size = 0usize;
    for _round in 0..5 {
        for _ in 0..3 {
            assert!(engine.on_sample(sample(100)).is_none());
        }
        let outcome = engine.on_sample(sample(100)).expect("flush expected");
        assert_eq!(outcome.row.connection_count, 3 + expected_size);
        match outcome.action {
            ScalingAction::Grow(q) => {
                engine.grown(q);
                expected_size += q;
            }
            ScalingAction::Shrink(k) => {
                expected_size -= k;
            }
        }
    }
}

#[test]
fn phase_flips_exactly_when_the_pool_reaches_the_ceiling() {
    // ceiling 4, step 2: sizes 2, 4 while increasing; the flip happens at
    // the flush where the pool reaches 4, and at no earlier flush.
    let mut engine = ContinuousEngine::new(4, 2, 3, FlushPolicy::Fixed(2), false, false, String::from("dev"));
    // First flush: grow to 2, still below the ceiling.
    assert!(engine.on_sample(sample(10)).is_none());
    let o = engine.on_sample(sample(10)).unwrap();
    match o.action {
        ScalingAction::Grow(q) => {
            assert_eq!(q, 2);
            engine.grown(q);
        }
        _ => panic!("expected growth"),
    }
    assert_eq!(engine.phase, ScalingPhase::Increasing);
    assert_eq!(engine.pool.size, 2);
    // Second flush: grow to the ceiling; the phase flips now.
    assert!(engine.on_sample(sample(10)).is_none());
    let o = engine.on_sample(sample(10)).unwrap();
    match o.action {
        ScalingAction::Grow(q) => {
            assert_eq!(q, 2);
            engine.grown(q);
        }
        _ => panic!("expected growth"),
    }
    assert_eq!(engine.phase, ScalingPhase::Decreasing);
    assert_eq!(engine.pool.size, 4);
}

#[test]
fn partial_growth_postpones_the_phase_flip() {
    let mut engine = ContinuousEngine::new(4, 4, 3, FlushPolicy::Fixed(1), false, false, String::from("dev"));
    let o = engine.on_sample(sample(10)).unwrap();
    match o.action {
        ScalingAction::Grow(q) => {
            assert_eq!(q, 4);
            // Only 3 of the 4 connections came up: still increasing.
            engine.grown(3);
        }
        _ => panic!("expected growth"),
    }
    assert_eq!(engine.phase, ScalingPhase::Increasing);
    assert_eq!(engine.pool.size, 3);
}

#[test]
fn full_ramp_up_and_down() {
    // ceiling 10, step 1, flush threshold 20, starting empty: after exactly
    // 200 round trips, 10 rows have been flushed, the pool size rose
    // monotonically 0 -> 10, and the phase is Decreasing.
    let mut engine = ContinuousEngine::new(10, 1, 3, FlushPolicy::Fixed(20), false, false, String::from("dev"));
    let mut rows = 0usize;
    let mut last_size = 0usize;
    for i in 0..200u32 {
        match engine.on_sample(sample(100 + i % 7)) {
            None => {}
            Some(outcome) => {
                rows += 1;
                match outcome.action {
                    ScalingAction::Grow(q) => engine.grown(q),
                    ScalingAction::Shrink(_) => panic!("no shrink expected in this ramp"),
                }
                assert!(engine.pool.size >= last_size, "pool size must rise monotonically");
                last_size = engine.pool.size;
            }
        }
    }
    assert_eq!(rows, 10);
    assert_eq!(engine.pool.size, 10);
    assert_eq!(engine.phase, ScalingPhase::Decreasing);
    assert!(!engine.finished);
}

#[test]
fn ramp_down_shrinks_to_zero_and_finishes() {
    let mut engine = ContinuousEngine::new(2, 1, 3, FlushPolicy::Fixed(1), false, false, String::from("dev"));
    // Ramp up: two flushes reach the ceiling.
    for _ in 0..2 {
        match engine.on_sample(sample(5)).unwrap().action {
            ScalingAction::Grow(q) => engine.grown(q),
            _ => panic!("expected growth"),
        }
    }
    assert_eq!(engine.phase, ScalingPhase::Decreasing);
    // Ramp down: two flushes empty the pool; the run finishes.
    match engine.on_sample(sample(5)).unwrap().action {
        ScalingAction::Shrink(k) => assert_eq!(k, 1),
        _ => panic!("expected shrink"),
    }
    assert!(!engine.finished);
    match engine.on_sample(sample(5)).unwrap().action {
        ScalingAction::Shrink(k) => assert_eq!(k, 1),
        _ => panic!("expected shrink"),
    }
    assert_eq!(engine.pool.size, 0);
    assert!(engine.finished);
}

#[test]
fn windows_never_span_a_pool_change() {
    // A flush consumes the window entirely; the next row is computed from
    // samples taken after the pool change only.
    let mut engine = ContinuousEngine::new(5, 1, 3, FlushPolicy::Fixed(2), false, false, String::from("dev"));
    engine.on_sample(sample(100));
    let first = engine.on_sample(sample(200)).unwrap();
    assert_eq!(first.row.stats.moments.sum, 300);
    match first.action {
        ScalingAction::Grow(q) => engine.grown(q),
        _ => panic!("expected growth"),
    }
    engine.on_sample(sample(1000));
    let second = engine.on_sample(sample(2000)).unwrap();
    assert_eq!(second.row.stats.moments.sum, 3000);
    assert_eq!(second.row.connection_count, 4);
}

#[test]
fn adaptive_policy_switches_the_flush_threshold() {
    // Boundary at 5 connections: windows of 4 samples below it, 2 above.
    let policy = FlushPolicy::Adaptive { boundary: 5, below: 4, above: 2 };
    let mut engine = ContinuousEngine::new(8, 2, 3, policy, false, false, String::from("dev"));
    assert_eq!(engine.flush_threshold, 4);
    for _ in 0..3 {
        assert!(engine.on_sample(sample(9)).is_none());
    }
    match engine.on_sample(sample(9)).unwrap().action {
        ScalingAction::Grow(q) => {
            assert_eq!(q, 2);
            engine.grown(q);
        }
        _ => panic!("expected growth"),
    }
    // Now 5 connections: the finer threshold applies.
    assert_eq!(engine.flush_threshold, 2);
    assert!(engine.on_sample(sample(9)).is_none());
    assert!(engine.on_sample(sample(9)).is_some());
}

#[test]
fn discrete_schedule_walks_levels_in_order() {
    let schedule_levels: Vec<usize> = vec![0, 10, 100, 1000];
    let mut schedule = DiscreteSchedule::new(schedule_levels, 3);
    let mut runs = Vec::new();
    while let Some(run) = schedule.next_run() {
        runs.push(run);
    }
    assert_eq!(runs.len(), 12);
    assert_eq!(runs[0], (0, 0));
    assert_eq!(runs[1], (0, 1));
    assert_eq!(runs[2], (0, 2));
    assert_eq!(runs[3], (10, 0));
    assert_eq!(runs[11], (1000, 2));
    assert!(schedule.next_run().is_none());
}

#[test]
fn throughput_is_round_trips_over_elapsed_time() {
    // 5000 round trips in 2 seconds: 2500 per second.
    assert_eq!(throughput_milli_per_sec(5000, 2_000_000), 2_500_000);
    // 1 round trip in 3 seconds: 0.333... per second, rounded down.
    assert_eq!(throughput_milli_per_sec(1, 3_000_000), 333);
}
