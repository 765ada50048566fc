//! Sweep bookkeeping: the range of polygon sizes to process and the
//! accumulated report.
//!
//! The report keeps one row per processed n, in strictly increasing n
//! order; a failed step simply contributes no row, and the sweep goes on.
use vstd::prelude::*;
use crate::stats::{AggregateStatistic, STAT_SCALE};

verus! {

/// The polygon sizes processed by a full sweep: every n from 3 through
/// 500, in increasing order.
pub fn get_n_values_to_process() -> (values: Vec<usize>)
    ensures
        values@.len() == 498,
        forall|i: int| 0 <= i < values@.len() ==> values@[i] == i + 3,
{
    let mut values: Vec<usize> = Vec::new();
    let mut n: usize = 3;
    while n <= 500
        invariant
            3 <= n <= 501,
            values@.len() == n - 3,
            forall|i: int| 0 <= i < values@.len() ==> values@[i] == i + 3,
        decreases 501 - n,
    {
        values.push(n);
        n += 1;
    }
    values
}

/// One row of the sweep report.
#[derive(Clone, Copy, PartialEq, Eq, Structural, Debug)]
pub struct ResultRow {
    /// Polygon size the row describes.
    pub n: u64,
    /// Probability estimate, standard error and confidence interval.
    pub stats: AggregateStatistic,
    /// Wall-clock duration of the run, in milliseconds, as measured by
    /// the caller.
    pub elapsed_millis: u64,
}

/// The accumulated report of one sweep.
pub struct SweepReport {
    pub rows: Vec<ResultRow>,
}

impl SweepReport {
    /// Rows are in strictly increasing n order and every statistic is
    /// well formed.
    pub open spec fn wf(&self) -> bool {
        &&& forall|i: int, j: int|
            0 <= i < j < self.rows@.len() ==> self.rows@[i].n < self.rows@[j].n
        &&& forall|i: int| 0 <= i < self.rows@.len() ==> (#[trigger] self.rows@[i]).stats.wf()
    }

    /// An empty report.
    pub fn new() -> (r: SweepReport)
        ensures
            r.wf(),
            r.rows@.len() == 0,
    {
        SweepReport { rows: Vec::new() }
    }

    /// Appends a row if doing so keeps the report well formed, and says
    /// whether the row was taken. A row out of n order, for an n already
    /// present, or with an ill-formed statistic is refused, so a caller
    /// that skips a failed step and goes on never corrupts the report.
    pub fn try_push(&mut self, row: ResultRow) -> (accepted: bool)
        requires
            old(self).wf(),
        ensures
            final(self).wf(),
            accepted <==> ((old(self).rows@.len() == 0 || old(self).rows@[old(
                self,
            ).rows@.len() - 1].n < row.n) && row.stats.wf()),
            accepted ==> final(self).rows@ == old(self).rows@.push(row),
            !accepted ==> final(self).rows@ == old(self).rows@,
    {
        let len = self.rows.len();
        let in_order = if len == 0 {
            true
        } else {
            self.rows[len - 1].n < row.n
        };
        let stats_ok = row.stats.ci_lower <= row.stats.probability && row.stats.probability
            <= row.stats.ci_upper && row.stats.ci_upper <= STAT_SCALE;
        if in_order && stats_ok {
            let ghost old_rows = self.rows@;
            self.rows.push(row);
            proof {
                assert forall|i: int, j: int|
                    0 <= i < j < self.rows@.len() implies self.rows@[i].n < self.rows@[j].n by {
                    if j < self.rows@.len() - 1 {
                    } else if old_rows.len() > 0 && i < old_rows.len() - 1 {
                        assert(old_rows[i].n < old_rows[old_rows.len() - 1].n);
                    }
                }
            }
            true
        } else {
            false
        }
    }

    /// Number of rows accumulated so far.
    pub fn len(&self) -> (r: usize)
        ensures
            r == self.rows@.len(),
    {
        self.rows.len()
    }
}

/// Law: a well-formed report never holds two rows for the same n, and
/// every probability it reports lies in `[0, STAT_SCALE]`.
pub proof fn lemma_report_rows_unique(r: SweepReport)
    requires
        r.wf(),
    ensures
        forall|i: int, j: int| 0 <= i < j < r.rows@.len() ==> r.rows@[i].n != r.rows@[j].n,
        forall|i: int|
            0 <= i < r.rows@.len() ==> (#[trigger] r.rows@[i]).stats.probability <= STAT_SCALE,
{
}

} // verus!
