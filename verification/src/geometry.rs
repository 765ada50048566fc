//! Planar geometry on fixed-point coordinates.
//!
//! Points carry integer coordinates scaled so that the unit circle fits well
//! inside `COORD_LIMIT`. All orientation tests are exact integer arithmetic,
//! so segment classification has no rounding cases.
use vstd::prelude::*;

verus! {

/// Bound on the magnitude of every coordinate handled by the library
/// (2^25). Keeping coordinates inside this bound lets every cross product
/// fit in an `i64` and every containment test fit in an `i128`.
pub const COORD_LIMIT: i64 = 0x200_0000;

/// Scale at which unit-circle coordinates are embedded into fixed point:
/// a point at distance 1 from the origin has coordinates of magnitude at
/// most `UNIT_SCALE`, well inside `COORD_LIMIT`.
pub const UNIT_SCALE: i64 = 10_000_000;

/// A planar point in fixed-point coordinates.
#[derive(Clone, Copy, PartialEq, Eq, Structural, Debug)]
pub struct Point {
    pub x: i64,
    pub y: i64,
}

/// A segment whose two endpoints lie on the polygon boundary.
#[derive(Clone, Copy, PartialEq, Eq, Structural, Debug)]
pub struct Chord {
    pub a: Point,
    pub b: Point,
}

pub open spec fn in_range(p: Point) -> bool {
    &&& -COORD_LIMIT <= p.x <= COORD_LIMIT
    &&& -COORD_LIMIT <= p.y <= COORD_LIMIT
}

pub open spec fn chord_in_range(c: Chord) -> bool {
    in_range(c.a) && in_range(c.b)
}

/// Twice the signed area of the triangle `a`, `b`, `c`: positive when the
/// triple turns counter-clockwise, zero when collinear.
pub open spec fn cross(a: Point, b: Point, c: Point) -> int {
    (b.x - a.x) * (c.y - a.y) - (b.y - a.y) * (c.x - a.x)
}

proof fn lemma_mul_abs_bound(x: int, y: int, bx: int, by: int)
    by (nonlinear_arith)
    requires
        -bx <= x <= bx,
        -by <= y <= by,
        0 <= bx,
        0 <= by,
    ensures
        -(bx * by) <= x * y <= bx * by,
{
}

/// Exact evaluation of `cross` for bounded points.
pub fn cross_val(a: Point, b: Point, c: Point) -> (r: i64)
    requires
        in_range(a),
        in_range(b),
        in_range(c),
    ensures
        r == cross(a, b, c),
{
    let ux = b.x - a.x;
    let uy = b.y - a.y;
    let vx = c.x - a.x;
    let vy = c.y - a.y;
    proof {
        lemma_mul_abs_bound(ux as int, vy as int, 0x400_0000, 0x400_0000);
        lemma_mul_abs_bound(uy as int, vx as int, 0x400_0000, 0x400_0000);
    }
    ux * vy - uy * vx
}

/// `p` lies on the closed segment from `a` to `b`.
pub open spec fn on_segment(p: Point, a: Point, b: Point) -> bool {
    &&& cross(a, b, p) == 0
    &&& (a.x <= p.x || b.x <= p.x)
    &&& (p.x <= a.x || p.x <= b.x)
    &&& (a.y <= p.y || b.y <= p.y)
    &&& (p.y <= a.y || p.y <= b.y)
}

/// The two chords cross in exactly one point that is an endpoint of neither.
pub open spec fn proper_crossing(c1: Chord, c2: Chord) -> bool {
    let d1 = cross(c2.a, c2.b, c1.a);
    let d2 = cross(c2.a, c2.b, c1.b);
    let d3 = cross(c1.a, c1.b, c2.a);
    let d4 = cross(c1.a, c1.b, c2.b);
    &&& ((d1 > 0 && d2 < 0) || (d1 < 0 && d2 > 0))
    &&& ((d3 > 0 && d4 < 0) || (d3 < 0 && d4 > 0))
}

/// All four endpoints lie on one line.
pub open spec fn all_collinear(c1: Chord, c2: Chord) -> bool {
    &&& cross(c2.a, c2.b, c1.a) == 0
    &&& cross(c2.a, c2.b, c1.b) == 0
    &&& cross(c1.a, c1.b, c2.a) == 0
    &&& cross(c1.a, c1.b, c2.b) == 0
}

/// Some endpoint of one chord lies on the other chord.
pub open spec fn any_endpoint_on_other(c1: Chord, c2: Chord) -> bool {
    ||| on_segment(c1.a, c2.a, c2.b)
    ||| on_segment(c1.b, c2.a, c2.b)
    ||| on_segment(c2.a, c1.a, c1.b)
    ||| on_segment(c2.b, c1.a, c1.b)
}

/// How two segments relate to one another.
#[derive(Clone, Copy, PartialEq, Eq, Structural, Debug)]
pub enum SegmentClass {
    /// No common point.
    Disjoint,
    /// Exactly one common point, interior to both segments.
    ProperCrossing,
    /// A common point that is an endpoint of at least one segment,
    /// the segments not being collinear.
    EndpointTouch,
    /// Collinear segments sharing at least one point.
    CollinearOverlap,
}

/// Classification of a pair of segments. Only `ProperCrossing` counts as a
/// candidate intersection for the oracle; touches and overlaps do not.
pub open spec fn classify_spec(c1: Chord, c2: Chord) -> SegmentClass {
    if proper_crossing(c1, c2) {
        SegmentClass::ProperCrossing
    } else if all_collinear(c1, c2) {
        if any_endpoint_on_other(c1, c2) {
            SegmentClass::CollinearOverlap
        } else {
            SegmentClass::Disjoint
        }
    } else if any_endpoint_on_other(c1, c2) {
        SegmentClass::EndpointTouch
    } else {
        SegmentClass::Disjoint
    }
}

/// Decides `on_segment` for bounded points.
pub fn point_on_segment(p: Point, a: Point, b: Point) -> (r: bool)
    requires
        in_range(p),
        in_range(a),
        in_range(b),
    ensures
        r == on_segment(p, a, b),
{
    if cross_val(a, b, p) != 0 {
        return false;
    }
    (a.x <= p.x || b.x <= p.x) && (p.x <= a.x || p.x <= b.x) && (a.y <= p.y || b.y <= p.y) && (p.y
        <= a.y || p.y <= b.y)
}

/// Classifies how two chords relate: disjoint, a single proper crossing,
/// an endpoint touch, or a collinear overlap.
pub fn classify(c1: Chord, c2: Chord) -> (r: SegmentClass)
    requires
        chord_in_range(c1),
        chord_in_range(c2),
    ensures
        r == classify_spec(c1, c2),
{
    let d1 = cross_val(c2.a, c2.b, c1.a);
    let d2 = cross_val(c2.a, c2.b, c1.b);
    let d3 = cross_val(c1.a, c1.b, c2.a);
    let d4 = cross_val(c1.a, c1.b, c2.b);
    if ((d1 > 0 && d2 < 0) || (d1 < 0 && d2 > 0)) && ((d3 > 0 && d4 < 0) || (d3 < 0 && d4 > 0)) {
        SegmentClass::ProperCrossing
    } else if d1 == 0 && d2 == 0 && d3 == 0 && d4 == 0 {
        if point_on_segment(c1.a, c2.a, c2.b) || point_on_segment(c1.b, c2.a, c2.b)
            || point_on_segment(c2.a, c1.a, c1.b) || point_on_segment(c2.b, c1.a, c1.b) {
            SegmentClass::CollinearOverlap
        } else {
            SegmentClass::Disjoint
        }
    } else if point_on_segment(c1.a, c2.a, c2.b) || point_on_segment(c1.b, c2.a, c2.b)
        || point_on_segment(c2.a, c1.a, c1.b) || point_on_segment(c2.b, c1.a, c1.b) {
        SegmentClass::EndpointTouch
    } else {
        SegmentClass::Disjoint
    }
}

/// Denominator of the crossing point of two properly crossing chords,
/// normalized to be positive: `|d1 - d2|` where `d1`, `d2` orient the
/// endpoints of `c1` against the line of `c2`.
pub open spec fn crossing_den(c1: Chord, c2: Chord) -> int {
    vstd::math::abs(cross(c2.a, c2.b, c1.a) - cross(c2.a, c2.b, c1.b)) as int
}

/// Numerator of the interpolation parameter of the crossing point along
/// `c1`, matching the normalized denominator.
pub open spec fn crossing_tnum(c1: Chord, c2: Chord) -> int {
    vstd::math::abs(cross(c2.a, c2.b, c1.a)) as int
}

/// X coordinate of the crossing point, scaled by `crossing_den`: the
/// crossing point itself is `(crossing_num_x / den, crossing_num_y / den)`.
pub open spec fn crossing_num_x(c1: Chord, c2: Chord) -> int {
    c1.a.x * crossing_den(c1, c2) + crossing_tnum(c1, c2) * (c1.b.x - c1.a.x)
}

/// Y coordinate of the crossing point, scaled by `crossing_den`.
pub open spec fn crossing_num_y(c1: Chord, c2: Chord) -> int {
    c1.a.y * crossing_den(c1, c2) + crossing_tnum(c1, c2) * (c1.b.y - c1.a.y)
}

/// Successor of index `i` on a ring of `len` positions.
pub open spec fn ring_next(len: int, i: int) -> int {
    if i + 1 == len {
        0
    } else {
        i + 1
    }
}

/// The scaled point `(nx/den, ny/den)` lies on or to the left of the
/// directed edge from `u` to `v`, for `den >= 0`.
pub open spec fn left_of_edge_scaled(nx: int, ny: int, den: int, u: Point, v: Point) -> bool {
    (v.x - u.x) * (ny - u.y * den) - (v.y - u.y) * (nx - u.x * den) >= 0
}

/// The crossing point of `c1` and `c2` lies on or to the left of every
/// directed boundary edge of the vertex ring `s`. For a counter-clockwise
/// convex ring this says the crossing point lies inside the polygon or on
/// its boundary.
pub open spec fn crossing_inside(c1: Chord, c2: Chord, s: Seq<Point>) -> bool {
    forall|i: int|
        0 <= i < s.len() ==> left_of_edge_scaled(
            crossing_num_x(c1, c2),
            crossing_num_y(c1, c2),
            crossing_den(c1, c2),
            #[trigger] s[i],
            s[ring_next(s.len() as int, i)],
        )
}

proof fn lemma_cross_bound(a: Point, b: Point, c: Point)
    requires
        in_range(a),
        in_range(b),
        in_range(c),
    ensures
        -0x20_0000_0000_0000 <= cross(a, b, c) <= 0x20_0000_0000_0000,
{
    lemma_mul_abs_bound((b.x - a.x) as int, (c.y - a.y) as int, 0x400_0000, 0x400_0000);
    lemma_mul_abs_bound((b.y - a.y) as int, (c.x - a.x) as int, 0x400_0000, 0x400_0000);
}

proof fn lemma_crossing_bounds(c1: Chord, c2: Chord)
    requires
        chord_in_range(c1),
        chord_in_range(c2),
    ensures
        0 <= crossing_den(c1, c2) <= 0x40_0000_0000_0000,
        0 <= crossing_tnum(c1, c2) <= 0x20_0000_0000_0000,
        -0x2_0000_0000_0000_0000_0000 <= crossing_num_x(c1, c2) <= 0x2_0000_0000_0000_0000_0000,
        -0x2_0000_0000_0000_0000_0000 <= crossing_num_y(c1, c2) <= 0x2_0000_0000_0000_0000_0000,
{
    lemma_cross_bound(c2.a, c2.b, c1.a);
    lemma_cross_bound(c2.a, c2.b, c1.b);
    lemma_mul_abs_bound(c1.a.x as int, crossing_den(c1, c2), 0x200_0000, 0x40_0000_0000_0000);
    lemma_mul_abs_bound(c1.a.y as int, crossing_den(c1, c2), 0x200_0000, 0x40_0000_0000_0000);
    lemma_mul_abs_bound(crossing_tnum(c1, c2), (c1.b.x - c1.a.x) as int, 0x20_0000_0000_0000,
        0x400_0000);
    lemma_mul_abs_bound(crossing_tnum(c1, c2), (c1.b.y - c1.a.y) as int, 0x20_0000_0000_0000,
        0x400_0000);
}

/// Decides whether the crossing point of two properly crossing chords lies
/// on or inside the boundary ring `vertices`, by exact integer arithmetic
/// on the crossing point scaled by its denominator.
#[verifier::loop_isolation(false)]
pub fn crossing_point_inside(c1: Chord, c2: Chord, vertices: &Vec<Point>) -> (r: bool)
    requires
        chord_in_range(c1),
        chord_in_range(c2),
        proper_crossing(c1, c2),
        vertices@.len() >= 3,
        forall|i: int| 0 <= i < vertices@.len() ==> in_range(#[trigger] vertices@[i]),
    ensures
        r == crossing_inside(c1, c2, vertices@),
{
    proof {
        lemma_cross_bound(c2.a, c2.b, c1.a);
        lemma_cross_bound(c2.a, c2.b, c1.b);
        lemma_crossing_bounds(c1, c2);
    }
    let d1 = cross_val(c2.a, c2.b, c1.a);
    let d2 = cross_val(c2.a, c2.b, c1.b);
    let den: i64 = if d1 >= d2 {
        d1 - d2
    } else {
        d2 - d1
    };
    let tnum: i64 = if d1 >= 0 {
        d1
    } else {
        -d1
    };
    assert(den == crossing_den(c1, c2));
    assert(tnum == crossing_tnum(c1, c2));
    let den128 = den as i128;
    let tnum128 = tnum as i128;
    proof {
        lemma_mul_abs_bound(c1.a.x as int, den128 as int, 0x200_0000, 0x40_0000_0000_0000);
        lemma_mul_abs_bound(c1.a.y as int, den128 as int, 0x200_0000, 0x40_0000_0000_0000);
        lemma_mul_abs_bound(tnum128 as int, (c1.b.x - c1.a.x) as int, 0x20_0000_0000_0000,
            0x400_0000);
        lemma_mul_abs_bound(tnum128 as int, (c1.b.y - c1.a.y) as int, 0x20_0000_0000_0000,
            0x400_0000);
    }
    let nx: i128 = (c1.a.x as i128) * den128 + tnum128 * ((c1.b.x - c1.a.x) as i128);
    let ny: i128 = (c1.a.y as i128) * den128 + tnum128 * ((c1.b.y - c1.a.y) as i128);
    assert(nx == crossing_num_x(c1, c2));
    assert(ny == crossing_num_y(c1, c2));
    let n = vertices.len();
    let mut i: usize = 0;
    while i < n
        invariant
            i <= n,
            forall|j: int|
                0 <= j < i ==> left_of_edge_scaled(
                    crossing_num_x(c1, c2),
                    crossing_num_y(c1, c2),
                    crossing_den(c1, c2),
                    #[trigger] vertices@[j],
                    vertices@[ring_next(n as int, j)],
                ),
        decreases n - i,
    {
        let u = vertices[i];
        let v = vertices[if i + 1 == n {
            0
        } else {
            i + 1
        }];
        assert(v == vertices@[ring_next(n as int, i as int)]);
        let ex = (v.x - u.x) as i128;
        let ey = (v.y - u.y) as i128;
        proof {
            lemma_mul_abs_bound(u.x as int, den128 as int, 0x200_0000, 0x40_0000_0000_0000);
            lemma_mul_abs_bound(u.y as int, den128 as int, 0x200_0000, 0x40_0000_0000_0000);
        }
        let px = nx - (u.x as i128) * den128;
        let py = ny - (u.y as i128) * den128;
        proof {
            lemma_mul_abs_bound(ex as int, py as int, 0x400_0000, 0x4_0000_0000_0000_0000_0000);
            lemma_mul_abs_bound(ey as int, px as int, 0x400_0000, 0x4_0000_0000_0000_0000_0000);
        }
        let t = ex * py - ey * px;
        if t < 0 {
            return false;
        }
        i += 1;
    }
    true
}

} // verus!
