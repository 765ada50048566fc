//! Trial execution and reduction.
//!
//! One trial draws two chords and asks the oracle whether they cross. The
//! processor-side path runs a unit of trials sequentially with its own
//! generator; units are independent, so a host may run several in
//! parallel and add the unit results in any order. The device-side path
//! is planned here (grid and per-thread iteration count) and its result
//! buffer is validated and reduced here; only the dispatch itself happens
//! outside the library.
use vstd::prelude::*;
use vstd::arithmetic::div_mod::{lemma_fundamental_div_mod, lemma_small_div_converse,
    lemma_basic_div};
use vstd::arithmetic::mul::{lemma_mul_inequality, lemma_mul_is_commutative};
use crate::errors::ConfigError;
use crate::oracle::{chords_intersect_inside, is_hit};
use crate::polygon::Polygon;
use crate::sampler::{sample_chord, valid_sample, SampledChord};

verus! {

/// Runs one Monte Carlo trial: draws two chords independently and scores
/// whether they cross inside the polygon. Fails exactly when the polygon
/// has fewer than two usable edges.
pub fn run_trial(poly: &Polygon, rng: &mut fastrand::Rng) -> (r: Result<bool, ConfigError>)
    requires
        poly.wf(),
    ensures
        r is Ok <==> poly.has_two_sampling_edges(),
        r matches Err(e) ==> e == ConfigError::TooFewValidEdges,
        r matches Ok(hit) ==> exists|a: SampledChord, b: SampledChord|
            valid_sample(a, *poly) && valid_sample(b, *poly) && hit == is_hit(
                a.chord,
                b.chord,
                poly.vertices@,
            ),
{
    let s1 = match sample_chord(poly, rng) {
        Ok(s) => s,
        Err(e) => {
            return Err(e);
        },
    };
    let s2 = match sample_chord(poly, rng) {
        Ok(s) => s,
        Err(e) => {
            // Unreachable: the first draw succeeded, so the polygon has
            // two sampling edges and every draw on it succeeds.
            proof {
                assert(false);
            }
            return Err(e);
        },
    };
    let hit = chords_intersect_inside(s1.chord, s2.chord, poly);
    proof {
        assert(valid_sample(s1, *poly) && valid_sample(s2, *poly) && hit == is_hit(
            s1.chord,
            s2.chord,
            poly.vertices@,
        ));
    }
    Ok(hit)
}

/// Runs `count` independent trials with the supplied generator and returns
/// the number of hits, at most `count`. Fails exactly when the polygon has
/// fewer than two usable edges.
#[verifier::loop_isolation(false)]
pub fn run_trials(poly: &Polygon, count: u64, rng: &mut fastrand::Rng) -> (r: Result<
    u64,
    ConfigError,
>)
    requires
        poly.wf(),
    ensures
        r is Ok <==> poly.has_two_sampling_edges(),
        r matches Err(e) ==> e == ConfigError::TooFewValidEdges,
        r matches Ok(hits) ==> hits <= count,
{
    if !poly.check_two_sampling_edges() {
        return Err(ConfigError::TooFewValidEdges);
    }
    let mut hits: u64 = 0;
    let mut i: u64 = 0;
    while i < count
        invariant
            i <= count,
            hits <= i,
        decreases count - i,
    {
        match run_trial(poly, rng) {
            Ok(hit) => {
                if hit {
                    hits += 1;
                }
            },
            Err(e) => {
                // Unreachable: sampling edges were checked before the loop.
                proof {
                    assert(false);
                }
                return Err(e);
            },
        }
        i += 1;
    }
    Ok(hits)
}

/// Seed of the independent random stream of work unit `index`, derived
/// from one master seed: runs are reproducible from the master seed alone
/// and no two units share generator state.
pub fn derive_stream_seed(master: u64, index: u64) -> (r: u64)
    ensures
        r == master ^ (((index * 0x9e37_79b9_7f4a_7c15) % 0x1_0000_0000_0000_0000) as u64),
{
    proof {
        assert((index as int) * 0x9e37_79b9_7f4a_7c15 <= 0xffff_ffff_ffff_ffff
            * 0x9e37_79b9_7f4a_7c15) by (nonlinear_arith)
            requires
                0 <= index <= 0xffff_ffff_ffff_ffff,
        ;
    }
    let product = (index as u128) * 0x9e37_79b9_7f4a_7c15u128;
    let mixed = (product % 0x1_0000_0000_0000_0000u128) as u64;
    master ^ mixed
}

/// Size of work unit `i` when `total` trials are split across `units`
/// units: the first `total % units` units take one extra trial.
pub open spec fn unit_size(total: u64, units: usize, i: int) -> int {
    total as int / units as int + if i < total as int % units as int {
        1int
    } else {
        0int
    }
}

/// Sum of a sequence of unit trial counts.
pub open spec fn sum_u64(s: Seq<u64>) -> int
    decreases s.len(),
{
    if s.len() == 0 {
        0
    } else {
        sum_u64(s.drop_last()) + s.last()
    }
}

proof fn lemma_sum_u64_remove(s: Seq<u64>, i: int)
    requires
        0 <= i < s.len(),
    ensures
        sum_u64(s.remove(i)) == sum_u64(s) - s[i],
    decreases s.len(),
{
    if i == s.len() - 1 {
        assert(s.remove(i) =~= s.drop_last());
    } else {
        lemma_sum_u64_remove(s.drop_last(), i);
        assert(s.remove(i).drop_last() =~= s.drop_last().remove(i));
        assert(s.remove(i).last() == s.last());
    }
}

/// Law: the reduction of unit results does not depend on the order in
/// which the units completed. Two result sequences that hold the same
/// values, however arranged, reduce to the same total — so a host may add
/// worker results as they arrive.
pub proof fn lemma_sum_u64_order_irrelevant(s1: Seq<u64>, s2: Seq<u64>)
    requires
        s1.to_multiset() == s2.to_multiset(),
    ensures
        sum_u64(s1) == sum_u64(s2),
    decreases s1.len(),
{
    broadcast use vstd::seq_lib::group_to_multiset_ensures;

    if s1.len() == 0 {
        assert(s2.to_multiset().len() == 0);
    } else {
        let x = s1.last();
        assert(s1.to_multiset().count(x) > 0) by {
            assert(s1.contains(x));
        }
        assert(s2.contains(x));
        let j = choose|j: int| 0 <= j < s2.len() && s2[j] == x;
        assert(s1.remove(s1.len() - 1).to_multiset() =~= s2.remove(j).to_multiset());
        lemma_sum_u64_order_irrelevant(s1.remove(s1.len() - 1), s2.remove(j));
        lemma_sum_u64_remove(s1, s1.len() - 1);
        lemma_sum_u64_remove(s2, j);
    }
}

/// Splits `total` trials into `units` independent work units whose sizes
/// add up to exactly `total` and differ by at most one, so a thread pool
/// achieves the requested trial count exactly.
#[verifier::loop_isolation(false)]
pub fn partition_trials(total: u64, units: usize) -> (r: Vec<u64>)
    requires
        1 <= units,
    ensures
        r@.len() == units,
        forall|i: int| 0 <= i < r@.len() ==> r@[i] == unit_size(total, units, i),
        sum_u64(r@) == total,
{
    let q = total / (units as u64);
    let rem = total % (units as u64);
    proof {
        lemma_fundamental_div_mod(total as int, units as int);
    }
    let mut r: Vec<u64> = Vec::new();
    let mut i: usize = 0;
    while i < units
        invariant
            r@.len() == i,
            i <= units,
            forall|j: int| 0 <= j < i ==> r@[j] == unit_size(total, units, j),
            sum_u64(r@) == i * (q as int) + if i <= rem {
                i as int
            } else {
                rem as int
            },
        decreases units - i,
    {
        let extra: u64 = if (i as u64) < rem {
            1
        } else {
            0
        };
        proof {
            if extra == 1 {
                assert(units >= 2);
                assert(q * 2 <= q * (units as int)) by (nonlinear_arith)
                    requires
                        0 <= q,
                        2 <= units as int,
                ;
            }
        }
        let ghost old_r = r@;
        let entry = q + extra;
        r.push(entry);
        proof {
            assert(r@.drop_last() =~= old_r);
            assert((i + 1) * (q as int) == i * (q as int) + q) by (nonlinear_arith);
        }
        i += 1;
    }
    proof {
        assert(sum_u64(r@) == (units as int) * (q as int) + rem);
        lemma_mul_is_commutative(units as int, q as int);
    }
    r
}

/// The execution grid and per-thread iteration count of one device
/// dispatch.
#[derive(Clone, Copy, PartialEq, Eq, Structural, Debug)]
pub struct DispatchPlan {
    pub workgroup_size: u32,
    pub num_workgroups: u32,
    pub iterations_per_thread: u32,
}

impl DispatchPlan {
    /// Total logical threads of the grid.
    pub open spec fn total_threads(&self) -> int {
        self.workgroup_size * self.num_workgroups
    }

    /// Trials the dispatch actually performs; may under-run a requested
    /// target because of the floor division across the grid.
    pub open spec fn achieved_trials(&self) -> int {
        self.iterations_per_thread * self.total_threads()
    }

    /// The grid is non-empty, its thread count fits the counter type, and
    /// the achieved trial count fits the target type.
    pub open spec fn wf(&self) -> bool {
        &&& 1 <= self.workgroup_size
        &&& 1 <= self.num_workgroups
        &&& self.total_threads() <= u32::MAX
        &&& self.achieved_trials() <= u32::MAX
    }

    /// Number of logical threads, evaluated.
    pub fn thread_count(&self) -> (r: u32)
        requires
            self.wf(),
        ensures
            r == self.total_threads(),
    {
        self.workgroup_size * self.num_workgroups
    }

    /// Achieved trial count, evaluated.
    pub fn achieved(&self) -> (r: u32)
        requires
            self.wf(),
        ensures
            r == self.achieved_trials(),
    {
        proof {
            assert(self.iterations_per_thread * (self.workgroup_size * self.num_workgroups)
                <= u32::MAX);
        }
        self.iterations_per_thread * (self.workgroup_size * self.num_workgroups)
    }
}

/// Plans one device dispatch for a requested trial target: floor-divides
/// the target across the grid. Fails exactly when the target is below the
/// thread count, which would achieve zero trials — a configuration defect.
pub fn plan_dispatch(target: u32, workgroup_size: u32, num_workgroups: u32) -> (r: Result<
    DispatchPlan,
    ConfigError,
>)
    requires
        1 <= workgroup_size,
        1 <= num_workgroups,
        workgroup_size * num_workgroups <= u32::MAX,
    ensures
        r is Ok <==> target >= workgroup_size * num_workgroups,
        r matches Err(e) ==> e == ConfigError::ZeroAchievedTrials,
        r matches Ok(p) ==> {
            &&& p.workgroup_size == workgroup_size
            &&& p.num_workgroups == num_workgroups
            &&& p.iterations_per_thread == target as int / (workgroup_size * num_workgroups)
            &&& p.wf()
            &&& 0 < p.achieved_trials() <= target
            &&& target - p.achieved_trials() < workgroup_size * num_workgroups
        },
{
    proof {
        assert(1 <= workgroup_size * num_workgroups) by (nonlinear_arith)
            requires
                1 <= workgroup_size,
                1 <= num_workgroups,
        ;
    }
    let total_threads = workgroup_size * num_workgroups;
    let iterations_per_thread = target / total_threads;
    if iterations_per_thread == 0 {
        proof {
            lemma_small_div_converse(target as int, total_threads as int);
        }
        return Err(ConfigError::ZeroAchievedTrials);
    }
    proof {
        if target < total_threads {
            lemma_basic_div(target as int, total_threads as int);
        }
    }
    let plan = DispatchPlan { workgroup_size, num_workgroups, iterations_per_thread };
    proof {
        lemma_fundamental_div_mod(target as int, total_threads as int);
        lemma_mul_is_commutative(iterations_per_thread as int, total_threads as int);
        assert(0 < plan.achieved_trials()) by (nonlinear_arith)
            requires
                plan.achieved_trials() == plan.iterations_per_thread * (plan.workgroup_size
                    * plan.num_workgroups),
                1 <= plan.iterations_per_thread,
                1 <= plan.workgroup_size * plan.num_workgroups,
        ;
    }
    Ok(plan)
}

/// Sum of a device result buffer of per-thread hit counters.
pub open spec fn sum_u32(s: Seq<u32>) -> int
    decreases s.len(),
{
    if s.len() == 0 {
        0
    } else {
        sum_u32(s.drop_last()) + s.last()
    }
}

/// Law: when every per-thread counter respects a common bound, the reduced
/// total respects `len * bound` — so per-thread iteration bounds cap the
/// reduced hit count by the achieved trial count.
pub proof fn lemma_sum_u32_bounded(s: Seq<u32>, bound: u32)
    requires
        forall|i: int| 0 <= i < s.len() ==> s[i] <= bound,
    ensures
        sum_u32(s) <= s.len() * bound,
    decreases s.len(),
{
    if s.len() == 0 {
    } else {
        lemma_sum_u32_bounded(s.drop_last(), bound);
        assert((s.len() - 1) * bound + bound == s.len() * bound) by (nonlinear_arith);
    }
}

/// Adds up a result buffer of per-thread hit counters on the host.
#[verifier::loop_isolation(false)]
pub fn sum_hit_counts(counts: &Vec<u32>) -> (r: u64)
    requires
        counts@.len() <= 0x1_0000_0000,
    ensures
        r == sum_u32(counts@),
{
    let mut r: u64 = 0;
    let mut i: usize = 0;
    while i < counts.len()
        invariant
            i <= counts@.len(),
            r == sum_u32(counts@.take(i as int)),
            r <= i * 0xffff_ffff,
        decreases counts@.len() - i,
    {
        proof {
            assert(counts@.take(i as int + 1).drop_last() =~= counts@.take(i as int));
            assert((i + 1) * 0xffff_ffff == i * 0xffff_ffff + 0xffff_ffff) by (nonlinear_arith);
            lemma_mul_inequality(i as int + 1, 0x1_0000_0000, 0xffff_ffff);
        }
        r = r + (counts[i] as u64);
        i += 1;
    }
    proof {
        assert(counts@.take(counts@.len() as int) =~= counts@);
    }
    r
}

/// Validates and reduces a device result buffer: every per-thread counter
/// must stay within the per-thread iteration count the kernel was asked
/// to run; the reduced hit total then cannot exceed the achieved trial
/// count. A buffer that breaks the bound is reported, never aggregated.
#[verifier::loop_isolation(false)]
pub fn reduce_device_counts(counts: &Vec<u32>, plan: &DispatchPlan) -> (r: Result<
    u64,
    ConfigError,
>)
    requires
        plan.wf(),
        counts@.len() == plan.total_threads(),
    ensures
        r is Ok <==> (forall|i: int|
            0 <= i < counts@.len() ==> (#[trigger] counts@[i]) <= plan.iterations_per_thread),
        r matches Err(e) ==> e == ConfigError::HitCountExceedsTrials,
        r matches Ok(hits) ==> hits == sum_u32(counts@) && hits <= plan.achieved_trials(),
{
    let bound = plan.iterations_per_thread;
    let mut i: usize = 0;
    while i < counts.len()
        invariant
            i <= counts@.len(),
            forall|j: int| 0 <= j < i ==> (#[trigger] counts@[j]) <= bound,
        decreases counts@.len() - i,
    {
        if counts[i] > bound {
            return Err(ConfigError::HitCountExceedsTrials);
        }
        i += 1;
    }
    let hits = sum_hit_counts(counts);
    proof {
        lemma_sum_u32_bounded(counts@, bound);
        lemma_mul_is_commutative(counts@.len() as int, bound as int);
    }
    Ok(hits)
}

} // verus!
