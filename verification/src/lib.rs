//! Parallel merge sort over `u64` sequences.
//!
//! The crate sorts a sequence by recursive halving and merging, and can run
//! both the recursive sub-sorts and the merge itself concurrently.  Merging
//! two sorted runs is made parallel by co-ranking: a logarithmic search
//! finds the split of a target output prefix between the two runs, so the
//! merge decomposes into two independent merges of disjoint output regions.
//!
//! Every sorting entry point returns exactly [`model::sort_of`] of its input,
//! so the result is independent of the chosen concurrency backend and worker
//! budget.

pub mod backend;
pub mod budget;
pub mod corank;
pub mod merge;
pub mod model;
pub mod pmerge;
pub mod psort;

use vstd::prelude::*;

verus! {

/// The concurrency backend that runs the recursive sub-sorts.
#[derive(Clone, Copy, Debug, PartialEq, Eq)]
pub enum Backend {
    /// An explicit worker budget is threaded through the recursion, so at
    /// most the budgeted number of branches are ever eligible to run in
    /// parallel.
    ThreadBudgeted,
    /// A shared work-stealing pool; load balancing is implicit and no budget
    /// is threaded through.
    TaskPool,
    /// A single execution context: the decomposition is the same, but the
    /// two units of each fork run one after the other, never in parallel.
    Cooperative,
}

/// How the merge phase runs; chosen independently of the sort-phase
/// backend, since merge parallelism and sort parallelism are orthogonal.
#[derive(Clone, Copy, Debug, PartialEq, Eq)]
pub enum MergeParallelism {
    /// Merge the two sorted halves in one linear pass.
    Sequential,
    /// Decompose the merge at co-rank split points.
    Balanced,
}

/// Configuration of [`sort`].
#[derive(Clone, Copy, Debug)]
pub struct SortConfig {
    pub backend: Backend,
    /// Positive count of concurrent execution units; required by
    /// `ThreadBudgeted` and `Cooperative`, ignored by `TaskPool`.
    pub worker_budget: u8,
    pub merge_parallelism: MergeParallelism,
    /// Positive run size at or below which the balanced merge falls back to
    /// the sequential merge.
    pub sequential_merge_threshold: usize,
}

/// Why a configuration was rejected before any sorting work began.
#[derive(Clone, Copy, Debug, PartialEq, Eq)]
pub enum ConfigError {
    /// The backend needs a worker budget and the budget given was below one.
    InvalidWorkerBudget,
    /// The sequential-merge threshold given was below one.
    InvalidMergeThreshold,
}

/// The backend threads a worker budget through the recursion.
pub open spec fn backend_needs_budget(b: Backend) -> bool {
    b is ThreadBudgeted || b is Cooperative
}

/// A configuration the sort accepts: a positive worker budget where the
/// backend requires one, and a positive sequential-merge threshold.
pub open spec fn config_valid(c: SortConfig) -> bool {
    &&& backend_needs_budget(c.backend) ==> c.worker_budget >= 1
    &&& c.sequential_merge_threshold >= 1
}

/// Sorts `list` in place with the configured backend.  A valid
/// configuration always succeeds and leaves `list` equal to
/// [`model::sort_of`] of its old value -- the same sequence for every
/// backend, budget and merge mode.  An invalid configuration is rejected
/// before any sorting work begins and leaves `list` unchanged.
pub fn sort(list: &mut Vec<u64>, config: &SortConfig) -> (r: Result<(), ConfigError>)
    ensures
        config_valid(*config) <==> r is Ok,
        r is Ok ==> final(list)@ == model::sort_of(old(list)@),
        r is Err ==> final(list)@ == old(list)@,
        backend_needs_budget(config.backend) && config.worker_budget == 0 ==> r == Err::<
            (),
            ConfigError,
        >(ConfigError::InvalidWorkerBudget),
        !(backend_needs_budget(config.backend) && config.worker_budget == 0)
            && config.sequential_merge_threshold == 0 ==> r == Err::<(), ConfigError>(
            ConfigError::InvalidMergeThreshold,
        ),
{
    let needs_budget = matches!(config.backend, Backend::ThreadBudgeted | Backend::Cooperative);
    if needs_budget && config.worker_budget == 0 {
        return Err(ConfigError::InvalidWorkerBudget);
    }
    if config.sequential_merge_threshold == 0 {
        return Err(ConfigError::InvalidMergeThreshold);
    }
    let balanced = matches!(config.merge_parallelism, MergeParallelism::Balanced);
    let owned = list.split_off(0);
    proof {
        assert(owned@ =~= old(list)@);
    }
    let sorted_out = match config.backend {
        Backend::ThreadBudgeted => psort::budget_sort_rec(
            owned,
            config.worker_budget,
            balanced,
            config.sequential_merge_threshold,
        ),
        Backend::TaskPool => psort::pool_sort_rec(
            owned,
            balanced,
            config.sequential_merge_threshold,
        ),
        Backend::Cooperative => psort::coop_sort_rec(
            owned,
            config.worker_budget,
            balanced,
            config.sequential_merge_threshold,
        ),
    };
    *list = sorted_out;
    Ok(())
}

} // verus!
