//! The interface for all available solvers.

use vstd::prelude::*;
use vstd::string::StringExecFns;

use crate::distance::LowerDistanceMatrix;
use crate::errors::SolverError;

verus! {

/// How many non-improving moves the heuristic routine tolerates before it
/// terminates.
const STALL_COUNT: i32 = 1000000;

/// The call contract toward the external solving engine: a routine reads the
/// packed lower-triangular costs, fills the tour buffer, and returns a signed
/// length, negative exactly when it could not produce a tour.
///
/// Nothing is assumed of an implementation; the entry points below interpret
/// whatever an engine returns, and tests substitute deterministic engines.
pub trait SolvingEngine {
    /// Exact routine (Held-Karp dynamic programming).
    fn solve_exact(&mut self, values: &Vec<u32>, tour: &mut Vec<u32>, num_nodes: u32) -> i32;

    /// Heuristic routine (Lin-Kernighan local search), bounded by a stall
    /// budget.
    fn solve_heuristic(
        &mut self,
        values: &Vec<u32>,
        tour: &mut Vec<u32>,
        num_nodes: u32,
        stall_count: i32,
    ) -> i32;
}

/// A solution consists of the tour and the length of that tour.
///
/// * `tour`: visiting order of the Hamiltonian cycle, as node indices.
/// * `length`: total cycle cost.
#[derive(Clone, Debug)]
pub struct Solution {
    pub tour: Vec<u32>,
    pub length: u32,
}

impl PartialEq for Solution {
    /// Two solutions are equal when their `length` values match, independent
    /// of the actual tour sequence; see [`Solution::same_tour`] for tour
    /// equality.
    fn eq(&self, other: &Self) -> (r: bool) {
        self.length == other.length
    }
}

impl vstd::std_specs::cmp::PartialEqSpecImpl for Solution {
    open spec fn obeys_eq_spec() -> bool {
        true
    }

    open spec fn eq_spec(&self, other: &Self) -> bool {
        self.length == other.length
    }
}

/// Sum of the costs of the first `k` edges along `tour`.
pub open spec fn spec_path_length(tour: Seq<u32>, m: LowerDistanceMatrix, k: int) -> int
    decreases k,
{
    if k <= 0 {
        0
    } else {
        spec_path_length(tour, m, k - 1) + m.spec_dist(tour[k - 1] as int, tour[k] as int)
    }
}

/// Total cycle cost of `tour`: the costs of consecutive pairs, plus the cost
/// of closing the cycle from the last node back to the first.
pub open spec fn spec_tour_length(tour: Seq<u32>, m: LowerDistanceMatrix) -> int {
    spec_path_length(tour, m, tour.len() - 1) + m.spec_dist(
        tour[tour.len() - 1] as int,
        tour[0] as int,
    )
}

/// A longer prefix of a tour never costs less: every edge cost is a
/// non-negative stored value.
proof fn lemma_path_length_monotonic(tour: Seq<u32>, m: LowerDistanceMatrix, k1: int, k2: int)
    requires
        0 <= k1 <= k2,
    ensures
        spec_path_length(tour, m, k1) <= spec_path_length(tour, m, k2),
    decreases k2 - k1,
{
    if k1 < k2 {
        lemma_path_length_monotonic(tour, m, k1, k2 - 1);
    }
}

impl Solution {
    /// Recomputes the total cycle cost of `tour`, independently of the
    /// solving engine: used to validate engine output and to score
    /// externally supplied tours.
    pub fn calc_length_from_tour(tour: &[u32], dist_mat: &LowerDistanceMatrix) -> (r: u32)
        requires
            dist_mat.wf(),
            tour@.len() >= 1,
            forall|k: int| 0 <= k < tour@.len() ==> tour@[k] < dist_mat.num_nodes,
            spec_tour_length(tour@, *dist_mat) <= u32::MAX,
        ensures
            r == spec_tour_length(tour@, *dist_mat),
    {
        let num_nodes = tour.len();
        let mut acc: u32 = 0;
        let mut k: usize = 1;
        while k < num_nodes
            invariant
                dist_mat.wf(),
                num_nodes == tour@.len(),
                1 <= k <= num_nodes,
                forall|t: int| 0 <= t < tour@.len() ==> tour@[t] < dist_mat.num_nodes,
                spec_tour_length(tour@, *dist_mat) <= u32::MAX,
                acc == spec_path_length(tour@, *dist_mat, k - 1),
            decreases num_nodes - k,
        {
            let d = dist_mat.dist(tour[k - 1] as usize, tour[k] as usize);
            proof {
                lemma_path_length_monotonic(tour@, *dist_mat, k as int, tour@.len() - 1);
            }
            acc = acc + d;
            k = k + 1;
        }
        let closing = dist_mat.dist(tour[num_nodes - 1] as usize, tour[0] as usize);
        acc + closing
    }

    /// Whether two solutions visit the same nodes in the same order; unlike
    /// `==`, which deliberately compares lengths only.
    pub fn same_tour(&self, other: &Solution) -> (r: bool)
        ensures
            r == (self.tour@ == other.tour@),
    {
        if self.tour.len() != other.tour.len() {
            proof {
                assert(self.tour@ != other.tour@);
            }
            return false;
        }
        let n = self.tour.len();
        let mut k: usize = 0;
        while k < n
            invariant
                n == self.tour@.len() == other.tour@.len(),
                k <= n,
                forall|t: int| 0 <= t < k ==> self.tour@[t] == other.tour@[t],
            decreases n - k,
        {
            if self.tour[k] != other.tour[k] {
                proof {
                    assert(self.tour@ != other.tour@);
                }
                return false;
            }
            k = k + 1;
        }
        proof {
            assert(self.tour@ =~= other.tour@);
        }
        true
    }
}

/// Interprets the signed length returned by an engine routine: a
/// non-negative value and the filled tour buffer become a [`Solution`]; the
/// negative sentinel becomes the typed failure naming `algorithm`.
pub fn interpret_engine_result(length: i32, tour: Vec<u32>, algorithm: &str) -> (r: Result<
    Solution,
    SolverError,
>)
    ensures
        length >= 0 ==> (r matches Ok(sol) && sol.tour@ == tour@ && sol.length == length),
        length < 0 ==> (r matches Err(e) && e.spec_algorithm() == algorithm@),
{
    if length >= 0 {
        Ok(Solution { tour, length: length as u32 })
    } else {
        Err(SolverError::SolverFailed(String::from_str(algorithm)))
    }
}

/// Zero-initialized output buffer with one slot per node, exclusively owned
/// by the solver call that allocates it.
fn alloc_tour_buffer(num_nodes: u32) -> (r: Vec<u32>)
    ensures
        r@.len() == num_nodes,
        forall|t: int| 0 <= t < r@.len() ==> r@[t] == 0,
{
    let n = num_nodes as usize;
    let mut buf: Vec<u32> = Vec::new();
    let mut k: usize = 0;
    while k < n
        invariant
            k <= n,
            buf@.len() == k,
            forall|t: int| 0 <= t < k ==> buf@[t] == 0,
        decreases n - k,
    {
        buf.push(0);
        k = k + 1;
    }
    buf
}

/// Held-Karp dynamic programming: exponential time and space in the node
/// count, suitable only for small instances.
///
/// # Errors
///
/// If the engine cannot solve the instance it returns a negative length, and
/// this entry point returns the failure named "Held-Karp".
pub fn tsp_hk<E: SolvingEngine>(dist_mat: &LowerDistanceMatrix, engine: &mut E) -> (r: Result<
    Solution,
    SolverError,
>)
    requires
        dist_mat.wf(),
    ensures
        r matches Err(e) ==> e.spec_algorithm() == "Held-Karp"@,
        r matches Ok(sol) ==> sol.length <= i32::MAX,
{
    let mut tour = alloc_tour_buffer(dist_mat.num_nodes);
    let length = engine.solve_exact(&dist_mat.values, &mut tour, dist_mat.num_nodes);
    interpret_engine_result(length, tour, "Held-Karp")
}

/// Lin-Kernighan local search: produces a feasible, not necessarily optimal,
/// tour and scales to much larger instances than the exact routine.
///
/// # Errors
///
/// If the engine cannot solve the instance it returns a negative length, and
/// this entry point returns the failure named "Lin-Kernighan".
pub fn tsp_lk<E: SolvingEngine>(dist_mat: &LowerDistanceMatrix, engine: &mut E) -> (r: Result<
    Solution,
    SolverError,
>)
    requires
        dist_mat.wf(),
    ensures
        r matches Err(e) ==> e.spec_algorithm() == "Lin-Kernighan"@,
        r matches Ok(sol) ==> sol.length <= i32::MAX,
{
    let mut tour = alloc_tour_buffer(dist_mat.num_nodes);
    let length = engine.solve_heuristic(
        &dist_mat.values,
        &mut tour,
        dist_mat.num_nodes,
        STALL_COUNT,
    );
    interpret_engine_result(length, tour, "Lin-Kernighan")
}

} // verus!
