use chord_sim::geometry::Point;
use chord_sim::polygon::Polygon;
use chord_sim::stats::{aggregate, AggregateStatistic, STAT_SCALE};
use chord_sim::sweep::{get_n_values_to_process, ResultRow, SweepReport};

fn regular_polygon(n: usize) -> Polygon {
    let step = 2.0 * std::f64::consts::PI / n as f64;
    let offset = if n % 2 == 0 {
        -std::f64::consts::PI / 2.0
    } else {
        -std::f64::consts::PI / 2.0 - step / 2.0
    };
    let scale = chord_sim::geometry::UNIT_SCALE as f64;
    let mut vertices = Vec::with_capacity(n);
    for i in 0..n {
        let angle = i as f64 * step + offset;
        vertices.push(Point {
            x: (angle.cos() * scale).round() as i64,
            y: (angle.sin() * scale).round() as i64,
        });
    }
    Polygon::new(vertices).expect("regular polygon must be accepted")
}

#[test]
fn sweep_values_run_from_3_to_500() {
    let values = get_n_values_to_process();
    assert_eq!(values.len(), 498);
    assert_eq!(values[0], 3);
    assert_eq!(values[497], 500);
    for w in values.windows(2) {
        assert!(w[0] < w[1]);
    }
}

#[test]
fn report_keeps_rows_ordered_and_unique() {
    let mut report = SweepReport::new();
    for n in [3u64, 4, 7] {
        let row = ResultRow { n, stats: aggregate(1, 4), elapsed_millis: 12 };
        assert!(report.try_push(row));
    }
    // A duplicate n, an out-of-order n, and an ill-formed statistic are
    // all refused without disturbing the report.
    let dup = ResultRow { n: 7, stats: aggregate(1, 4), elapsed_millis: 1 };
    assert!(!report.try_push(dup));
    let out_of_order = ResultRow { n: 5, stats: aggregate(1, 4), elapsed_millis: 1 };
    assert!(!report.try_push(out_of_order));
    let bad_stats = AggregateStatistic {
        probability: 2 * STAT_SCALE,
        std_dev: 0,
        ci_lower: 0,
        ci_upper: 2 * STAT_SCALE,
    };
    let bad = ResultRow { n: 9, stats: bad_stats, elapsed_millis: 1 };
    assert!(!report.try_push(bad));
    assert_eq!(report.len(), 3);
    assert_eq!(report.rows[0].n, 3);
    assert_eq!(report.rows[1].n, 4);
    assert_eq!(report.rows[2].n, 7);
}

#[test]
fn sweep_over_small_range_yields_one_row_per_n() {
    let mut report = SweepReport::new();
    for n in 3..=10u64 {
        let poly = regular_polygon(n as usize);
        let mut rng = fastrand::Rng::with_seed(0xd00d_0000 + n);
        let trials: u64 = 2000;
        let hits = run(&poly, trials, &mut rng);
        let stats = aggregate(hits, trials);
        let row = ResultRow { n, stats, elapsed_millis: 0 };
        assert!(report.try_push(row));
    }
    assert_eq!(report.len(), 8);
    for w in report.rows.windows(2) {
        assert!(w[0].n < w[1].n);
    }
    for row in &report.rows {
        assert!(row.stats.probability <= STAT_SCALE);
        assert!(row.stats.ci_lower <= row.stats.probability);
        assert!(row.stats.probability <= row.stats.ci_upper);
    }
}

fn run(poly: &Polygon, trials: u64, rng: &mut fastrand::Rng) -> u64 {
    chord_sim::engine::run_trials(poly, trials, rng).expect("run must succeed")
}
