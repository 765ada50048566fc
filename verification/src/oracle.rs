//! The intersection oracle: do two chords cross inside the polygon?
//!
//! Only a proper single-point crossing counts as a hit; endpoint touches
//! and collinear overlaps do not. Before a crossing is counted, the
//! crossing point is checked to lie on or inside the polygon boundary — a
//! defensive guard, since for a convex polygon and chords on its boundary
//! the crossing always lies inside.
use vstd::prelude::*;
use crate::geometry::{Chord, Point, SegmentClass, chord_in_range, classify, classify_spec,
    crossing_inside, crossing_point_inside, proper_crossing};
use crate::polygon::Polygon;

verus! {

/// A trial's two chords score a hit: they cross in a single point interior
/// to both chords, and that point lies on or inside the boundary ring `s`.
pub open spec fn is_hit(c1: Chord, c2: Chord, s: Seq<Point>) -> bool {
    classify_spec(c1, c2) == SegmentClass::ProperCrossing && crossing_inside(c1, c2, s)
}

/// Decides whether two chords cross inside the polygon.
pub fn chords_intersect_inside(c1: Chord, c2: Chord, poly: &Polygon) -> (r: bool)
    requires
        poly.wf(),
        chord_in_range(c1),
        chord_in_range(c2),
    ensures
        r == is_hit(c1, c2, poly.vertices@),
{
    let class = classify(c1, c2);
    if matches!(class, SegmentClass::ProperCrossing) {
        assert(proper_crossing(c1, c2));
        crossing_point_inside(c1, c2, &poly.vertices)
    } else {
        false
    }
}

} // verus!
