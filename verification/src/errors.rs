//! Error taxonomy of the simulation core.
//!
//! Every variant is a configuration defect: the caller is expected to stop
//! the run rather than retry, because the same inputs would fail again.
use vstd::prelude::*;

verus! {

/// A configuration defect that makes a run impossible.
#[derive(Clone, Copy, PartialEq, Eq, Structural, Debug)]
pub enum ConfigError {
    /// Fewer than three vertices were supplied for a polygon.
    PolygonTooSmall,
    /// A vertex coordinate lies outside the fixed-point working range.
    CoordinateOutOfRange,
    /// The vertex ring does not turn counter-clockwise everywhere.
    NotCounterClockwise,
    /// Fewer than two non-degenerate edges are available for chord sampling.
    TooFewValidEdges,
    /// The planned trial count came out as zero.
    ZeroAchievedTrials,
    /// Statistics were requested over zero trials.
    ZeroTrialCount,
    /// More hits than trials were reported.
    HitCountExceedsTrials,
}

} // verus!
