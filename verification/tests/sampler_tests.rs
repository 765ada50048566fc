use chord_sim::errors::ConfigError;
use chord_sim::geometry::{Point, UNIT_SCALE};
use chord_sim::polygon::Polygon;
use chord_sim::sampler::{interpolate, sample_chord, T_SCALE};

fn pt(x: i64, y: i64) -> Point {
    Point { x, y }
}

fn unit_square() -> Polygon {
    let s = UNIT_SCALE;
    Polygon::new(vec![pt(0, -s), pt(s, 0), pt(0, s), pt(-s, 0)]).expect("square must be accepted")
}

#[test]
fn interpolation_divides_an_edge_exactly() {
    let s = UNIT_SCALE;
    let a = pt(0, -s);
    let b = pt(s, 0);
    assert_eq!(interpolate(a, b, 0), a);
    assert_eq!(interpolate(a, b, T_SCALE / 2), pt(s / 2, -s + s / 2));
    assert_eq!(interpolate(a, b, T_SCALE - 1), pt(s - s / 1_048_576 - 1, -(s / 1_048_576) - 1));
}

#[test]
fn sampled_chords_use_two_distinct_edges() {
    let poly = unit_square();
    let mut rng = fastrand::Rng::with_seed(0x5eed_0001);
    for _ in 0..500 {
        let s = sample_chord(&poly, &mut rng).expect("square sampling must succeed");
        assert_ne!(s.first_edge, s.second_edge);
        assert!(s.first_edge < 4);
        assert!(s.second_edge < 4);
    }
}

#[test]
fn sampled_endpoints_stay_on_the_boundary_box() {
    let poly = unit_square();
    let s = UNIT_SCALE;
    let mut rng = fastrand::Rng::with_seed(0x5eed_0002);
    for _ in 0..500 {
        let c = sample_chord(&poly, &mut rng).expect("square sampling must succeed").chord;
        for p in [c.a, c.b] {
            assert!(p.x.abs() <= s && p.y.abs() <= s);
            // Every boundary point of this square satisfies |x| + |y| = s;
            // interpolation rounds toward the edge start by at most one
            // unit per coordinate.
            let taxi = p.x.abs() + p.y.abs();
            assert!((taxi - s).abs() <= 2, "endpoint off the boundary: {taxi}");
        }
    }
}

#[test]
fn sampling_skips_degenerate_edges() {
    let s = UNIT_SCALE;
    let poly = Polygon::new(vec![pt(0, -s), pt(s, 0), pt(s, 0), pt(0, s), pt(-s, 0)])
        .expect("ring with a repeated vertex must be accepted");
    let mut rng = fastrand::Rng::with_seed(0x5eed_0003);
    for _ in 0..500 {
        let c = sample_chord(&poly, &mut rng).expect("sampling must succeed");
        assert_ne!(c.first_edge, 1, "degenerate edge chosen");
        assert_ne!(c.second_edge, 1, "degenerate edge chosen");
    }
}

#[test]
fn sampling_a_fully_degenerate_ring_fails() {
    let poly = Polygon::new(vec![pt(7, 7), pt(7, 7), pt(7, 7)]).expect("ring is well formed");
    let mut rng = fastrand::Rng::with_seed(0x5eed_0004);
    let r = sample_chord(&poly, &mut rng);
    assert_eq!(r.unwrap_err(), ConfigError::TooFewValidEdges);
}
