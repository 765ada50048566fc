use chord_sim::engine::{derive_stream_seed, partition_trials, plan_dispatch,
    reduce_device_counts, run_trial, run_trials, sum_hit_counts, DispatchPlan};
use chord_sim::errors::ConfigError;
use chord_sim::geometry::{Point, UNIT_SCALE};
use chord_sim::polygon::Polygon;

fn pt(x: i64, y: i64) -> Point {
    Point { x, y }
}

fn unit_square() -> Polygon {
    let s = UNIT_SCALE;
    Polygon::new(vec![pt(0, -s), pt(s, 0), pt(0, s), pt(-s, 0)]).expect("square must be accepted")
}

#[test]
fn partition_splits_exactly() {
    let parts = partition_trials(10, 3);
    assert_eq!(parts, vec![4, 3, 3]);
    let parts = partition_trials(12, 4);
    assert_eq!(parts, vec![3, 3, 3, 3]);
    let parts = partition_trials(5, 8);
    assert_eq!(parts, vec![1, 1, 1, 1, 1, 0, 0, 0]);
    let parts = partition_trials(0, 2);
    assert_eq!(parts, vec![0, 0]);
}

#[test]
fn partition_sums_to_the_target() {
    for (total, units) in [(1_000_000u64, 7usize), (999_999, 8), (3, 5), (123_456, 31)] {
        let parts = partition_trials(total, units);
        assert_eq!(parts.len(), units);
        assert_eq!(parts.iter().sum::<u64>(), total);
        let lo = parts.iter().min().unwrap();
        let hi = parts.iter().max().unwrap();
        assert!(hi - lo <= 1);
    }
}

#[test]
fn dispatch_plan_floors_the_target() {
    let plan = plan_dispatch(1_000_000_000, 256, 4096).expect("plan must succeed");
    assert_eq!(plan.workgroup_size, 256);
    assert_eq!(plan.num_workgroups, 4096);
    assert_eq!(plan.thread_count(), 1_048_576);
    assert_eq!(plan.iterations_per_thread, 953);
    assert_eq!(plan.achieved(), 999_292_928);
    assert!(plan.achieved() <= 1_000_000_000);
}

#[test]
fn dispatch_plan_rejects_a_target_below_the_grid() {
    let r = plan_dispatch(1_048_575, 256, 4096);
    assert_eq!(r.unwrap_err(), ConfigError::ZeroAchievedTrials);
}

#[test]
fn sum_of_counters_is_exact() {
    assert_eq!(sum_hit_counts(&vec![]), 0);
    assert_eq!(sum_hit_counts(&vec![1, 2, 3]), 6);
    assert_eq!(sum_hit_counts(&vec![u32::MAX, u32::MAX]), 2 * (u32::MAX as u64));
}

#[test]
fn device_counts_are_validated_before_reduction() {
    let plan = DispatchPlan { workgroup_size: 2, num_workgroups: 2, iterations_per_thread: 5 };
    let ok = reduce_device_counts(&vec![1, 5, 0, 3], &plan);
    assert_eq!(ok.unwrap(), 9);
    let bad = reduce_device_counts(&vec![1, 6, 0, 3], &plan);
    assert_eq!(bad.unwrap_err(), ConfigError::HitCountExceedsTrials);
}

#[test]
fn trials_on_a_degenerate_ring_fail() {
    let poly = Polygon::new(vec![pt(7, 7), pt(7, 7), pt(7, 7)]).expect("ring is well formed");
    let mut rng = fastrand::Rng::with_seed(0x5eed_1001);
    assert_eq!(run_trial(&poly, &mut rng).unwrap_err(), ConfigError::TooFewValidEdges);
    assert_eq!(run_trials(&poly, 10, &mut rng).unwrap_err(), ConfigError::TooFewValidEdges);
    assert_eq!(run_trials(&poly, 0, &mut rng).unwrap_err(), ConfigError::TooFewValidEdges);
}

#[test]
fn trial_counts_stay_within_bounds() {
    let poly = unit_square();
    let mut rng = fastrand::Rng::with_seed(0x5eed_1002);
    let hits = run_trials(&poly, 2000, &mut rng).expect("square trials must run");
    assert!(hits <= 2000);
    // Crossing chords are common on a square; an empty count would mean
    // the oracle or the sampler is broken.
    assert!(hits > 0);
}

#[test]
fn unit_results_add_like_one_big_run() {
    // Splitting a run into units and adding the unit results in any order
    // gives a total bounded by the trial count, as one big run does.
    let poly = unit_square();
    let total: u64 = 3000;
    let parts = partition_trials(total, 4);
    let mut sum: u64 = 0;
    for (i, part) in parts.iter().enumerate().rev() {
        let mut rng = fastrand::Rng::with_seed(derive_stream_seed(0xbeef_0000, i as u64));
        sum += run_trials(&poly, *part, &mut rng).expect("unit must run");
    }
    assert!(sum <= total);
    assert!(sum > 0);
}

#[test]
fn stream_seeds_are_distinct_and_reproducible() {
    let master: u64 = 0x1234_5678_9abc_def0;
    let mut seeds: Vec<u64> = (0..64).map(|i| derive_stream_seed(master, i)).collect();
    assert_eq!(seeds[0], master);
    assert_eq!(seeds[1], master ^ 0x9e37_79b9_7f4a_7c15);
    assert_eq!(derive_stream_seed(master, 63), seeds[63]);
    seeds.sort_unstable();
    seeds.dedup();
    assert_eq!(seeds.len(), 64);
}

#[test]
fn independent_seeds_agree_within_three_standard_errors() {
    let poly = unit_square();
    let trials: u64 = 100_000;
    let mut rng_a = fastrand::Rng::with_seed(0x0a0a_0a0a);
    let mut rng_b = fastrand::Rng::with_seed(0xb0b0_b0b0);
    let hits_a = run_trials(&poly, trials, &mut rng_a).expect("run must succeed");
    let hits_b = run_trials(&poly, trials, &mut rng_b).expect("run must succeed");
    let stats_a = chord_sim::stats::aggregate(hits_a, trials);
    let stats_b = chord_sim::stats::aggregate(hits_b, trials);
    let p_a = stats_a.probability as f64 / 1e9;
    let p_b = stats_b.probability as f64 / 1e9;
    let se_a = stats_a.std_dev as f64 / 1e9;
    let se_b = stats_b.std_dev as f64 / 1e9;
    let combined = (se_a * se_a + se_b * se_b).sqrt();
    assert!((p_a - p_b).abs() <= 3.0 * combined, "estimates disagree: {p_a} vs {p_b}");
}

#[test]
fn confidence_intervals_cover_the_aggregate_estimate() {
    // Repeated runs with different seeds: each run's 95% interval should
    // contain the pooled estimate in the large majority of runs.
    let poly = unit_square();
    let runs: u64 = 30;
    let trials: u64 = 20_000;
    let mut all_hits: Vec<u64> = Vec::new();
    for seed in 0..runs {
        let mut rng = fastrand::Rng::with_seed(0xcafe_0000 + seed);
        all_hits.push(run_trials(&poly, trials, &mut rng).expect("run must succeed"));
    }
    let pooled = chord_sim::stats::aggregate(all_hits.iter().sum(), runs * trials);
    let mut covered = 0;
    for hits in all_hits {
        let s = chord_sim::stats::aggregate(hits, trials);
        if s.ci_lower <= pooled.probability && pooled.probability <= s.ci_upper {
            covered += 1;
        }
    }
    assert!(covered >= 26, "only {covered} of {runs} intervals covered the pooled estimate");
}
