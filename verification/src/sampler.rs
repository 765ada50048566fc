//! Random chord sampling on polygon edges.
//!
//! A chord is drawn by choosing two distinct non-degenerate edges uniformly
//! (the second by bounded rejection with a deterministic fallback) and
//! interpolating one endpoint on each edge with an independent uniform
//! parameter.
use vstd::prelude::*;
use vstd::arithmetic::div_mod::{lemma_div_is_ordered, lemma_div_multiples_vanish};
use vstd::arithmetic::mul::lemma_mul_inequality;
use crate::errors::ConfigError;
use crate::geometry::{Point, Chord, in_range, chord_in_range, COORD_LIMIT};
use crate::polygon::Polygon;

verus! {

/// Scale of the interpolation parameter: a draw `t` in `[0, T_SCALE)`
/// places a chord endpoint at fraction `t / T_SCALE` along its edge.
pub const T_SCALE: u64 = 0x10_0000;

/// Retries of the second-edge draw before the deterministic fallback
/// settles the choice, so sampling terminates on every input.
pub const MAX_EDGE_RETRIES: u32 = 16;

/// Declares fastrand::Rng, the seedable pseudorandom generator that the
/// sampling wrappers below draw from. The type is opaque to verification;
/// nothing is assumed of its state.
#[verifier::external_type_specification]
#[verifier::external_body]
pub struct ExRng(fastrand::Rng);

/// Relies on fastrand::Rng::usize over the range `0..bound`: it returns a
/// value below `bound` and panics only on an empty range, which
/// `bound >= 1` rules out.
#[verifier::external_body]
pub(crate) fn rng_usize_below(rng: &mut fastrand::Rng, bound: usize) -> (r: usize)
    requires
        bound >= 1,
    ensures
        r < bound,
{
    rng.usize(..bound)
}

/// Relies on fastrand::Rng::u64 over the range `0..bound`: it returns a
/// value below `bound` and panics only on an empty range, which
/// `bound >= 1` rules out.
#[verifier::external_body]
pub(crate) fn rng_u64_below(rng: &mut fastrand::Rng, bound: u64) -> (r: u64)
    requires
        bound >= 1,
    ensures
        r < bound,
{
    rng.u64(..bound)
}

/// Coordinate of the point dividing `a`..`b` at parameter `t / T_SCALE`,
/// rounded toward `a`.
pub open spec fn lerp_coord(a: i64, b: i64, t: u64) -> int {
    if b >= a {
        a + ((b - a) * t) / (T_SCALE as int)
    } else {
        a - ((a - b) * t) / (T_SCALE as int)
    }
}

/// The point dividing the segment `a`..`b` at parameter `t / T_SCALE`.
pub open spec fn lerp_point(a: Point, b: Point, t: u64) -> Point {
    Point { x: lerp_coord(a.x, b.x, t) as i64, y: lerp_coord(a.y, b.y, t) as i64 }
}

fn lerp_coord_val(a: i64, b: i64, t: u64) -> (r: i64)
    requires
        -COORD_LIMIT <= a <= COORD_LIMIT,
        -COORD_LIMIT <= b <= COORD_LIMIT,
        t < T_SCALE,
    ensures
        r == lerp_coord(a, b, t),
        -COORD_LIMIT <= r <= COORD_LIMIT,
{
    if b >= a {
        let d = (b - a) as u64;
        proof {
            lemma_mul_inequality(t as int, T_SCALE as int, d as int);
            lemma_div_is_ordered((d * t) as int, (T_SCALE * d) as int, T_SCALE as int);
            lemma_div_multiples_vanish(d as int, T_SCALE as int);
        }
        let q = (d * t) / T_SCALE;
        a + (q as i64)
    } else {
        let d = (a - b) as u64;
        proof {
            lemma_mul_inequality(t as int, T_SCALE as int, d as int);
            lemma_div_is_ordered((d * t) as int, (T_SCALE * d) as int, T_SCALE as int);
            lemma_div_multiples_vanish(d as int, T_SCALE as int);
        }
        let q = (d * t) / T_SCALE;
        a - (q as i64)
    }
}

/// The point at fraction `t / T_SCALE` along the segment from `a` to `b`,
/// in exact fixed-point arithmetic, rounded toward `a` in each coordinate.
pub fn interpolate(a: Point, b: Point, t: u64) -> (r: Point)
    requires
        in_range(a),
        in_range(b),
        t < T_SCALE,
    ensures
        r == lerp_point(a, b, t),
        in_range(r),
{
    let x = lerp_coord_val(a.x, b.x, t);
    let y = lerp_coord_val(a.y, b.y, t);
    Point { x, y }
}

/// `p` was produced by interpolating some admissible parameter on edge `e`
/// of the polygon.
pub open spec fn point_samples_edge(p: Point, poly: Polygon, e: int) -> bool {
    exists|t: u64| t < T_SCALE && p == lerp_point(poly.edge_start(e), poly.edge_end(e), t)
}

/// One sampled chord, with the indices of the two distinct edges carrying
/// its endpoints.
#[derive(Clone, Copy, PartialEq, Eq, Structural, Debug)]
pub struct SampledChord {
    pub chord: Chord,
    pub first_edge: usize,
    pub second_edge: usize,
}

/// Everything the sampler guarantees of one draw: the two edges are
/// distinct, in range and non-degenerate, and each chord endpoint was
/// interpolated on its own edge with an admissible parameter.
pub open spec fn valid_sample(s: SampledChord, poly: Polygon) -> bool {
    &&& s.first_edge < poly.n() && s.second_edge < poly.n()
    &&& s.first_edge != s.second_edge
    &&& poly.edge_valid(s.first_edge as int) && poly.edge_valid(s.second_edge as int)
    &&& point_samples_edge(s.chord.a, poly, s.first_edge as int)
    &&& point_samples_edge(s.chord.b, poly, s.second_edge as int)
    &&& chord_in_range(s.chord)
}

/// Draws one random chord: two distinct non-degenerate edges (the second
/// by bounded rejection with a deterministic fallback) and one
/// interpolated endpoint on each. Fails exactly when fewer than two
/// non-degenerate edges exist, a configuration defect.
#[verifier::loop_isolation(false)]
pub fn sample_chord(poly: &Polygon, rng: &mut fastrand::Rng) -> (r: Result<
    SampledChord,
    ConfigError,
>)
    requires
        poly.wf(),
    ensures
        r is Ok <==> poly.has_two_sampling_edges(),
        r matches Err(e) ==> e == ConfigError::TooFewValidEdges,
        r matches Ok(s) ==> valid_sample(s, *poly),
{
    let valid = poly.valid_edge_indices();
    proof {
        crate::polygon::lemma_two_sampling_edges_iff(poly, valid@);
    }
    if valid.len() < 2 {
        return Err(ConfigError::TooFewValidEdges);
    }
    let pos1 = rng_usize_below(rng, valid.len());
    let mut pos2 = pos1;
    let mut tries: u32 = 0;
    while tries < MAX_EDGE_RETRIES && pos2 == pos1
        invariant
            pos2 < valid@.len(),
            tries <= MAX_EDGE_RETRIES,
        decreases MAX_EDGE_RETRIES - tries,
    {
        pos2 = rng_usize_below(rng, valid.len());
        tries += 1;
    }
    if pos2 == pos1 {
        pos2 = if pos1 == 0 {
            1
        } else {
            0
        };
    }
    let e1 = valid[pos1];
    let e2 = valid[pos2];
    proof {
        if pos1 < pos2 {
            assert(valid@[pos1 as int] < valid@[pos2 as int]);
        } else {
            assert(valid@[pos2 as int] < valid@[pos1 as int]);
        }
    }
    let first = poly.edge_points(e1);
    let t1 = rng_u64_below(rng, T_SCALE);
    let p1 = interpolate(first.0, first.1, t1);
    let second = poly.edge_points(e2);
    let t2 = rng_u64_below(rng, T_SCALE);
    let p2 = interpolate(second.0, second.1, t2);
    proof {
        assert(t1 < T_SCALE && p1 == lerp_point(
            poly.edge_start(e1 as int),
            poly.edge_end(e1 as int),
            t1,
        ));
        assert(t2 < T_SCALE && p2 == lerp_point(
            poly.edge_start(e2 as int),
            poly.edge_end(e2 as int),
            t2,
        ));
    }
    Ok(SampledChord { chord: Chord { a: p1, b: p2 }, first_edge: e1, second_edge: e2 })
}

} // verus!
