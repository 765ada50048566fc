//! The polygon model: a counter-clockwise convex ring of fixed-point
//! vertices, with edge bookkeeping for the chord sampler.
use vstd::prelude::*;
use crate::errors::ConfigError;
use crate::geometry::{Point, in_range, cross, cross_val, ring_next, COORD_LIMIT};

verus! {

/// Every vertex lies inside the fixed-point working range.
pub open spec fn all_in_range(s: Seq<Point>) -> bool {
    forall|i: int| 0 <= i < s.len() ==> in_range(#[trigger] s[i])
}

/// The turn taken at vertex `i + 1` of the ring is counter-clockwise or
/// straight (never clockwise).
pub open spec fn turn_at(s: Seq<Point>, i: int) -> bool {
    cross(
        s[i],
        s[ring_next(s.len() as int, i)],
        s[ring_next(s.len() as int, ring_next(s.len() as int, i))],
    ) >= 0
}

/// The whole ring turns counter-clockwise: together with simplicity this is
/// convexity. Degenerate (repeated) vertices are allowed and give straight
/// turns; the sampler excludes the zero-length edges they produce.
pub open spec fn ccw_turning(s: Seq<Point>) -> bool {
    forall|i: int| 0 <= i < s.len() ==> #[trigger] turn_at(s, i)
}

/// A well-formed vertex ring: at least three vertices, all in range,
/// turning counter-clockwise.
pub open spec fn wf_ring(s: Seq<Point>) -> bool {
    &&& s.len() >= 3
    &&& all_in_range(s)
    &&& ccw_turning(s)
}

/// The error reported for a rejected vertex ring.
pub open spec fn ring_error(s: Seq<Point>) -> ConfigError {
    if s.len() < 3 {
        ConfigError::PolygonTooSmall
    } else if !all_in_range(s) {
        ConfigError::CoordinateOutOfRange
    } else {
        ConfigError::NotCounterClockwise
    }
}

/// A convex polygon given by its boundary vertices in counter-clockwise
/// order. Edge `i` runs from vertex `i` to vertex `i + 1 mod n`; edges are
/// derived, never stored.
#[derive(Debug)]
pub struct Polygon {
    pub vertices: Vec<Point>,
}

impl Polygon {
    /// Number of vertices (and of edges).
    pub open spec fn n(&self) -> int {
        self.vertices@.len() as int
    }

    /// First endpoint of edge `i`.
    pub open spec fn edge_start(&self, i: int) -> Point {
        self.vertices@[i]
    }

    /// Second endpoint of edge `i`.
    pub open spec fn edge_end(&self, i: int) -> Point {
        self.vertices@[ring_next(self.n(), i)]
    }

    /// Edge `i` has two distinct endpoints, so a chord endpoint can be
    /// drawn on it.
    pub open spec fn edge_valid(&self, i: int) -> bool {
        self.edge_start(i) != self.edge_end(i)
    }

    /// The polygon is a well-formed ring.
    pub open spec fn wf(&self) -> bool {
        wf_ring(self.vertices@)
    }

    /// At least two distinct edges are usable for sampling.
    pub open spec fn has_two_sampling_edges(&self) -> bool {
        exists|i: int, j: int|
            0 <= i < j < self.n() && #[trigger] self.edge_valid(i) && #[trigger] self.edge_valid(j)
    }

    /// Validates a vertex ring and wraps it as a polygon. Rejects rings
    /// with fewer than three vertices, an out-of-range coordinate, or a
    /// clockwise turn, in that order of checks.
    pub fn new(vertices: Vec<Point>) -> (r: Result<Polygon, ConfigError>)
        ensures
            r is Ok <==> wf_ring(vertices@),
            r matches Ok(p) ==> p.vertices@ == vertices@ && p.wf(),
            r matches Err(e) ==> e == ring_error(vertices@),
    {
        let n = vertices.len();
        if n < 3 {
            return Err(ConfigError::PolygonTooSmall);
        }
        let mut i: usize = 0;
        while i < n
            invariant
                n == vertices@.len(),
                3 <= n,
                i <= n,
                forall|j: int| 0 <= j < i ==> in_range(#[trigger] vertices@[j]),
            decreases n - i,
        {
            let p = vertices[i];
            if p.x < -COORD_LIMIT || p.x > COORD_LIMIT || p.y < -COORD_LIMIT || p.y > COORD_LIMIT {
                assert(!in_range(vertices@[i as int]));
                return Err(ConfigError::CoordinateOutOfRange);
            }
            i += 1;
        }
        let mut i: usize = 0;
        while i < n
            invariant
                n == vertices@.len(),
                3 <= n,
                i <= n,
                all_in_range(vertices@),
                forall|j: int| 0 <= j < i ==> #[trigger] turn_at(vertices@, j),
            decreases n - i,
        {
            let j = if i + 1 == n {
                0
            } else {
                i + 1
            };
            let k = if j + 1 == n {
                0
            } else {
                j + 1
            };
            let a = vertices[i];
            let b = vertices[j];
            let c = vertices[k];
            if cross_val(a, b, c) < 0 {
                assert(!turn_at(vertices@, i as int));
                return Err(ConfigError::NotCounterClockwise);
            }
            assert(turn_at(vertices@, i as int));
            i += 1;
        }
        Ok(Polygon { vertices })
    }

    /// Number of vertices.
    pub fn num_vertices(&self) -> (r: usize)
        ensures
            r == self.n(),
    {
        self.vertices.len()
    }

    /// The two endpoints of edge `i`.
    pub fn edge_points(&self, i: usize) -> (r: (Point, Point))
        requires
            i < self.n(),
        ensures
            r.0 == self.edge_start(i as int),
            r.1 == self.edge_end(i as int),
    {
        let n = self.vertices.len();
        let j = if i + 1 == n {
            0
        } else {
            i + 1
        };
        (self.vertices[i], self.vertices[j])
    }

    /// Decides whether at least two distinct non-degenerate edges exist,
    /// the precondition of chord sampling.
    pub fn check_two_sampling_edges(&self) -> (r: bool)
        ensures
            r == self.has_two_sampling_edges(),
    {
        let valid = self.valid_edge_indices();
        proof {
            lemma_two_sampling_edges_iff(self, valid@);
        }
        valid.len() >= 2
    }

    /// The indices of the edges with two distinct endpoints, in increasing
    /// order: exactly the edges the chord sampler may use.
    pub fn valid_edge_indices(&self) -> (r: Vec<usize>)
        ensures
            forall|k: int|
                0 <= k < r@.len() ==> (#[trigger] r@[k]) < self.n() && self.edge_valid(
                    r@[k] as int,
                ),
            forall|k1: int, k2: int| 0 <= k1 < k2 < r@.len() ==> r@[k1] < r@[k2],
            forall|i: int| 0 <= i < self.n() && self.edge_valid(i) ==> r@.contains(i as usize),
    {
        let n = self.vertices.len();
        let mut r: Vec<usize> = Vec::new();
        let mut i: usize = 0;
        while i < n
            invariant
                n == self.vertices@.len(),
                i <= n,
                forall|k: int|
                    0 <= k < r@.len() ==> (#[trigger] r@[k]) < i && self.edge_valid(r@[k] as int),
                forall|k1: int, k2: int| 0 <= k1 < k2 < r@.len() ==> r@[k1] < r@[k2],
                forall|j: int| 0 <= j < i && self.edge_valid(j) ==> r@.contains(j as usize),
            decreases n - i,
        {
            let j = if i + 1 == n {
                0
            } else {
                i + 1
            };
            let a = self.vertices[i];
            let b = self.vertices[j];
            if a != b {
                let ghost old_r = r@;
                r.push(i);
                proof {
                    assert forall|q: int|
                        0 <= q < i + 1 && self.edge_valid(q) implies r@.contains(q as usize) by {
                        if q == i {
                            assert(r@[r@.len() - 1] == i as usize);
                        } else {
                            assert(old_r.contains(q as usize));
                            let w = choose|w: int|
                                0 <= w < old_r.len() && old_r[w] == q as usize;
                            assert(r@[w] == q as usize);
                        }
                    }
                }
            }
            i += 1;
        }
        r
    }
}

/// The sampler's success condition in terms of the valid-edge list: a list
/// with the shape `valid_edge_indices` guarantees has at least two entries
/// exactly when two distinct sampling edges exist.
pub proof fn lemma_two_sampling_edges_iff(poly: &Polygon, valid: Seq<usize>)
    requires
        forall|k: int|
            0 <= k < valid.len() ==> (#[trigger] valid[k]) < poly.n() && poly.edge_valid(
                valid[k] as int,
            ),
        forall|k1: int, k2: int| 0 <= k1 < k2 < valid.len() ==> valid[k1] < valid[k2],
        forall|i: int| 0 <= i < poly.n() && poly.edge_valid(i) ==> valid.contains(i as usize),
    ensures
        valid.len() >= 2 <==> poly.has_two_sampling_edges(),
{
    if valid.len() >= 2 {
        assert(valid[0] < valid[1]);
        assert(poly.edge_valid(valid[0] as int) && poly.edge_valid(valid[1] as int));
        assert(poly.has_two_sampling_edges());
    } else if poly.has_two_sampling_edges() {
        broadcast use vstd::std_specs::vec::axiom_spec_len;

        let (i, j) = choose|i: int, j: int|
            0 <= i < j < poly.n() && #[trigger] poly.edge_valid(i) && #[trigger] poly.edge_valid(
                j,
            );
        assert(poly.vertices@.len() <= usize::MAX) by {
            assert(vstd::std_specs::vec::spec_vec_len(&poly.vertices) == poly.vertices@.len());
        }
        assert(i as usize != j as usize);
        assert(valid.contains(i as usize));
        assert(valid.contains(j as usize));
        let ki = choose|k: int| 0 <= k < valid.len() && valid[k] == i as usize;
        let kj = choose|k: int| 0 <= k < valid.len() && valid[k] == j as usize;
        assert(valid[ki] != valid[kj]);
        assert(false);
    }
}

} // verus!
