//! Fixed-point statistics over a (hit count, trial count) pair.
//!
//! All quantities are scaled by `STAT_SCALE`: a probability `p` is stored
//! as `p * STAT_SCALE`, rounded down. The standard error uses the
//! Bernoulli proportion estimator `sqrt(p * (1 - p) / N)` and the 95%
//! confidence interval a fixed z-score of 1.96, clamped to `[0, 1]`.
use vstd::prelude::*;
use vstd::arithmetic::div_mod::{lemma_div_is_ordered, lemma_div_multiples_vanish,
    lemma_div_nonincreasing};
use vstd::arithmetic::mul::lemma_mul_inequality;
use crate::errors::ConfigError;

verus! {

/// Fixed-point scale of probabilities and derived quantities.
pub const STAT_SCALE: u64 = 1_000_000_000;

/// Numerator of the 95% z-score 1.96.
pub const Z95_NUM: u64 = 196;

/// Denominator of the 95% z-score 1.96.
pub const Z95_DEN: u64 = 100;

/// The aggregate statistic of one run: probability estimate, standard
/// error and 95% confidence interval, all scaled by `STAT_SCALE`.
#[derive(Clone, Copy, PartialEq, Eq, Structural, Debug)]
pub struct AggregateStatistic {
    pub probability: u64,
    pub std_dev: u64,
    pub ci_lower: u64,
    pub ci_upper: u64,
}

impl AggregateStatistic {
    /// The estimate and its interval are ordered and lie in `[0, 1]`.
    pub open spec fn wf(&self) -> bool {
        self.ci_lower <= self.probability <= self.ci_upper <= STAT_SCALE
    }

    /// The confidence margin `1.96 * std_dev`, rounded down.
    pub open spec fn margin(&self) -> int {
        Z95_NUM * self.std_dev / (Z95_DEN as int)
    }
}

/// Integer square root: the greatest `r` with `r * r <= x`.
pub fn isqrt(x: u64) -> (r: u64)
    ensures
        r * r <= x < (r + 1) * (r + 1),
{
    if x == 0 {
        return 0;
    }
    let mut lo: u64 = 0;
    let mut hi: u64 = 0x1_0000_0000;
    proof {
        assert(x < 0x1_0000_0000 * 0x1_0000_0000);
    }
    while hi - lo > 1
        invariant
            lo < hi <= 0x1_0000_0000,
            lo * lo <= x,
            x < hi * hi,
        decreases hi - lo,
    {
        let mid = lo + (hi - lo) / 2;
        proof {
            assert(mid * mid <= 0xffff_ffff * 0xffff_ffff) by (nonlinear_arith)
                requires
                    0 <= mid <= 0xffff_ffff,
            ;
        }
        if mid * mid <= x {
            lo = mid;
        } else {
            hi = mid;
        }
    }
    lo
}

/// Converts a hit count over a positive trial count into the scaled
/// probability, standard error and clamped 95% confidence interval.
pub fn aggregate(hits: u64, trials: u64) -> (r: AggregateStatistic)
    requires
        1 <= trials,
        hits <= trials,
    ensures
        r.probability == hits * STAT_SCALE / (trials as int),
        r.std_dev * r.std_dev <= r.probability * (STAT_SCALE - r.probability) / (trials as int) < (
        r.std_dev + 1) * (r.std_dev + 1),
        r.ci_lower == if r.margin() >= r.probability {
            0int
        } else {
            r.probability - r.margin()
        },
        r.ci_upper == if r.probability + r.margin() >= STAT_SCALE {
            STAT_SCALE as int
        } else {
            r.probability + r.margin()
        },
        r.wf(),
{
    proof {
        assert((hits as int) * (STAT_SCALE as int) <= 0xffff_ffff_ffff_ffff * 1_000_000_000)
            by (nonlinear_arith)
            requires
                0 <= hits <= 0xffff_ffff_ffff_ffff,
                STAT_SCALE == 1_000_000_000u64,
        ;
    }
    let p128 = (hits as u128) * (STAT_SCALE as u128) / (trials as u128);
    proof {
        lemma_mul_inequality(hits as int, trials as int, STAT_SCALE as int);
        lemma_div_is_ordered(
            (hits as int) * (STAT_SCALE as int),
            (trials as int) * (STAT_SCALE as int),
            trials as int,
        );
        lemma_div_multiples_vanish(STAT_SCALE as int, trials as int);
    }
    assert(p128 <= STAT_SCALE);
    let p = p128 as u64;
    proof {
        lemma_mul_inequality(p as int, STAT_SCALE as int, (STAT_SCALE - p) as int);
        lemma_div_nonincreasing((p as int) * ((STAT_SCALE - p) as int), trials as int);
    }
    let var128 = (p as u128) * ((STAT_SCALE - p) as u128) / (trials as u128);
    proof {
        assert((STAT_SCALE as int) * ((STAT_SCALE - p) as int) <= (STAT_SCALE as int) * (
        STAT_SCALE as int)) by (nonlinear_arith)
            requires
                0 <= (STAT_SCALE - p) as int <= STAT_SCALE as int,
        ;
    }
    let var = var128 as u64;
    let sd = isqrt(var);
    proof {
        assert(sd <= STAT_SCALE) by (nonlinear_arith)
            requires
                sd * sd <= var,
                var as int <= (STAT_SCALE as int) * (STAT_SCALE as int),
                0 <= sd,
                STAT_SCALE == 1_000_000_000u64,
        ;
    }
    let margin = Z95_NUM * sd / Z95_DEN;
    proof {
        lemma_mul_inequality(sd as int, STAT_SCALE as int, Z95_NUM as int);
        lemma_div_is_ordered(
            (sd as int) * (Z95_NUM as int),
            (STAT_SCALE as int) * (Z95_NUM as int),
            Z95_DEN as int,
        );
        assert((Z95_NUM as int) * (sd as int) == (sd as int) * (Z95_NUM as int));
        assert((Z95_NUM as int) * (STAT_SCALE as int) == (STAT_SCALE as int) * (Z95_NUM as int));
    }
    let ci_lower = if margin >= p {
        0
    } else {
        p - margin
    };
    let ci_upper_raw = p + margin;
    let ci_upper = if ci_upper_raw >= STAT_SCALE {
        STAT_SCALE
    } else {
        ci_upper_raw
    };
    AggregateStatistic { probability: p, std_dev: sd, ci_lower, ci_upper }
}

/// Statistics over counts that have not been validated yet: rejects a
/// zero trial count and a hit count above the trial count instead of
/// aggregating them.
pub fn aggregate_checked(hits: u64, trials: u64) -> (r: Result<AggregateStatistic, ConfigError>)
    ensures
        r is Ok <==> (1 <= trials && hits <= trials),
        trials == 0 ==> r == Err::<AggregateStatistic, ConfigError>(ConfigError::ZeroTrialCount),
        trials >= 1 && hits > trials ==> r == Err::<AggregateStatistic, ConfigError>(
            ConfigError::HitCountExceedsTrials,
        ),
        r matches Ok(s) ==> {
            &&& s.probability == hits * STAT_SCALE / (trials as int)
            &&& s.std_dev * s.std_dev <= s.probability * (STAT_SCALE - s.probability) / (
            trials as int) < (s.std_dev + 1) * (s.std_dev + 1)
            &&& s.ci_lower == if s.margin() >= s.probability {
                0int
            } else {
                s.probability - s.margin()
            }
            &&& s.ci_upper == if s.probability + s.margin() >= STAT_SCALE {
                STAT_SCALE as int
            } else {
                s.probability + s.margin()
            }
            &&& s.wf()
        },
{
    if trials == 0 {
        Err(ConfigError::ZeroTrialCount)
    } else if hits > trials {
        Err(ConfigError::HitCountExceedsTrials)
    } else {
        Ok(aggregate(hits, trials))
    }
}

} // verus!
