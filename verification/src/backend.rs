//! Concurrency Backend: the fork-join capability that runs two independent
//! computations, possibly concurrently, and returns both results.
//!
//! The parallel backends share one primitive, [`fork_join`]; the cooperative
//! backend decomposes the same recursion but runs the two units in its own
//! execution context, so it needs no primitive at all.  The two tasks own
//! disjoint data, so no synchronization beyond the join is ever needed.

use vstd::prelude::*;

verus! {

/// Fork-join on the work-stealing pool.  Relies on `rayon::join`: it runs
/// `oper_a` and `oper_b` to completion, possibly in parallel on different
/// workers, and returns the pair of their results.
#[verifier::external_body]
pub(crate) fn fork_join<A, B, RA, RB>(oper_a: A, oper_b: B) -> (r: (RA, RB)) where
    A: FnOnce() -> RA + Send,
    B: FnOnce() -> RB + Send,
    RA: Send,
    RB: Send,

    requires
        oper_a.requires(()),
        oper_b.requires(()),
    ensures
        oper_a.ensures((), r.0),
        oper_b.ensures((), r.1),
{
    rayon::join(oper_a, oper_b)
}

} // verus!
