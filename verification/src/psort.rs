//! Sort Orchestrator: recursive halving with concurrently sorted halves,
//! merged sequentially or by the Balanced Parallel Merge.  One orchestrator
//! per concurrency backend; all three return the same sequence.

use crate::backend::fork_join;
use crate::merge::{merge_vecs, sort_vec};
use crate::model::{lemma_merge_of_sorted_halves, lemma_sort_of_ensures};
use crate::model::{lemma_sort_of_sorted_identity, sort_of};
use crate::pmerge::{budget_merge_rec, coop_merge_rec, pool_merge_rec};
use vstd::prelude::*;

verus! {

/// Sort Orchestrator on the work-stealing pool: sorts the two halves
/// concurrently with no explicit budget, then merges them sequentially or
/// with the balanced parallel merge.
pub(crate) fn pool_sort_rec(list: Vec<u64>, balanced_merge: bool, threshold: usize) -> (r: Vec<
    u64,
>)
    requires
        threshold >= 1,
    ensures
        r@ == sort_of(list@),
    decreases list@.len(),
{
    if list.len() <= 1 {
        proof {
            lemma_sort_of_sorted_identity(list@);
        }
        return list;
    }
    let ghost whole = list@;
    let pivot = list.len() / 2;
    let mut left = list;
    let right = left.split_off(pivot);
    let ghost lv = left@;
    let ghost rv = right@;
    let (ls, rs) = fork_join(
        (move || -> (r: Vec<u64>)
            ensures
                r@ == sort_of(lv),
            {
                pool_sort_rec(left, balanced_merge, threshold)
            }),
        (move || -> (r: Vec<u64>)
            ensures
                r@ == sort_of(rv),
            {
                pool_sort_rec(right, balanced_merge, threshold)
            }),
    );
    proof {
        lemma_sort_of_ensures(lv);
        lemma_sort_of_ensures(rv);
    }
    let out = if balanced_merge {
        pool_merge_rec(ls, rs, threshold)
    } else {
        merge_vecs(&ls, &rs)
    };
    proof {
        lemma_merge_of_sorted_halves(whole, pivot as int, sort_of(lv), sort_of(rv), out@);
    }
    out
}

/// Sort Orchestrator under an explicit worker budget: with a budget above
/// one the halves are sorted concurrently, the left half taking half the
/// budget and the right half the rest; a budget of one is the efficiency
/// floor and sorts sequentially with no further dispatch.
pub(crate) fn budget_sort_rec(
    list: Vec<u64>,
    num_threads: u8,
    balanced_merge: bool,
    threshold: usize,
) -> (r: Vec<u64>)
    requires
        num_threads >= 1,
        threshold >= 1,
    ensures
        r@ == sort_of(list@),
    decreases list@.len(),
{
    if list.len() <= 1 {
        proof {
            lemma_sort_of_sorted_identity(list@);
        }
        return list;
    }
    if num_threads == 1 {
        return sort_vec(list);
    }
    let ghost whole = list@;
    let total = list.len();
    let left_threads = num_threads / 2;
    let right_threads = num_threads - left_threads;
    let pivot = total / 2;
    let mut left = list;
    let right = left.split_off(pivot);
    let ghost lv = left@;
    let ghost rv = right@;
    let (ls, rs) = fork_join(
        (move || -> (r: Vec<u64>)
            ensures
                r@ == sort_of(lv),
            {
                budget_sort_rec(left, left_threads, balanced_merge, threshold)
            }),
        (move || -> (r: Vec<u64>)
            ensures
                r@ == sort_of(rv),
            {
                budget_sort_rec(right, right_threads, balanced_merge, threshold)
            }),
    );
    proof {
        lemma_sort_of_ensures(lv);
        lemma_sort_of_ensures(rv);
    }
    let out = if balanced_merge {
        budget_merge_rec(ls, rs, num_threads, threshold)
    } else {
        merge_vecs(&ls, &rs)
    };
    proof {
        lemma_merge_of_sorted_halves(whole, pivot as int, sort_of(lv), sort_of(rv), out@);
    }
    out
}

/// Sort Orchestrator decomposed cooperatively: the same budgeted recursion
/// as the worker-budgeted form, with the two units run one after the other
/// in this execution context -- concurrency as interleaving, not
/// parallelism.
pub(crate) fn coop_sort_rec(
    list: Vec<u64>,
    num_threads: u8,
    balanced_merge: bool,
    threshold: usize,
) -> (r: Vec<u64>)
    requires
        num_threads >= 1,
        threshold >= 1,
    ensures
        r@ == sort_of(list@),
    decreases list@.len(),
{
    if list.len() <= 1 {
        proof {
            lemma_sort_of_sorted_identity(list@);
        }
        return list;
    }
    if num_threads == 1 {
        return sort_vec(list);
    }
    let ghost whole = list@;
    let total = list.len();
    let left_threads = num_threads / 2;
    let right_threads = num_threads - left_threads;
    let pivot = total / 2;
    let mut left = list;
    let right = left.split_off(pivot);
    let ghost lv = left@;
    let ghost rv = right@;
    let ls = coop_sort_rec(left, left_threads, balanced_merge, threshold);
    let rs = coop_sort_rec(right, right_threads, balanced_merge, threshold);
    proof {
        lemma_sort_of_ensures(lv);
        lemma_sort_of_ensures(rv);
    }
    let out = if balanced_merge {
        coop_merge_rec(ls, rs, threshold)
    } else {
        merge_vecs(&ls, &rs)
    };
    proof {
        lemma_merge_of_sorted_halves(whole, pivot as int, sort_of(lv), sort_of(rv), out@);
    }
    out
}

/// Sorts `list` in place under an explicit worker budget of `num_threads`.
/// When `use_thread_merge` is set the merge phase also runs as a balanced
/// parallel merge under the same budget; otherwise the halves are merged
/// sequentially.
pub fn thread_merge_sort(list: &mut Vec<u64>, num_threads: u8, use_thread_merge: bool)
    requires
        num_threads >= 1,
    ensures
        final(list)@ == sort_of(old(list)@),
{
    let owned = list.split_off(0);
    proof {
        assert(owned@ =~= old(list)@);
    }
    *list = budget_sort_rec(owned, num_threads, use_thread_merge, 2);
}

/// Sorts `list` in place on the work-stealing pool.  When `use_rayon_merge`
/// is set the merge phase also runs as a balanced parallel merge on the
/// pool; otherwise the halves are merged sequentially.
pub fn rayon_merge_sort(list: &mut Vec<u64>, use_rayon_merge: bool)
    ensures
        final(list)@ == sort_of(old(list)@),
{
    let owned = list.split_off(0);
    proof {
        assert(owned@ =~= old(list)@);
    }
    *list = pool_sort_rec(owned, use_rayon_merge, 1);
}

} // verus!
