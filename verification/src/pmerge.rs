//! Balanced Parallel Merge: a two-run merge decomposed at a co-rank split
//! point into two independent merges that write disjoint regions of the
//! output, so they can run concurrently with no locking.  The split is taken
//! at the midpoint of the longer run, so every level halves the longer run
//! whatever the skew between the two.

use crate::backend::fork_join;
use crate::budget::split_budget;
use crate::corank::{co_rank, lemma_merge_decomposition};
use crate::merge::{copy_range, merge_vecs};
use crate::model::{lemma_sort_of_comm, lemma_sorted_subrange};
use crate::model::{sort_of, sorted};
use vstd::prelude::*;

verus! {

/// Splits two sorted runs at the co-rank of the longer run's midpoint into
/// the lower and upper pair of a balanced merge step.  Returns
/// `(smaller_low, bigger_low, smaller_high, bigger_high)`: every part
/// sorted, the merge of the lower pair followed by the merge of the upper
/// pair equal to the merge of the whole, and each pair strictly smaller
/// than the whole.
pub(crate) fn split_for_merge(left: Vec<u64>, right: Vec<u64>) -> (r: (
    Vec<u64>,
    Vec<u64>,
    Vec<u64>,
    Vec<u64>,
))
    requires
        sorted(left@),
        sorted(right@),
        left@.len() >= 2,
        right@.len() >= 2,
    ensures
        sorted(r.0@),
        sorted(r.1@),
        sorted(r.2@),
        sorted(r.3@),
        sort_of(r.0@ + r.1@) + sort_of(r.2@ + r.3@) == sort_of(left@ + right@),
        r.0@.len() + r.1@.len() + r.2@.len() + r.3@.len() == left@.len() + right@.len(),
        1 <= r.0@.len() + r.1@.len() < left@.len() + right@.len(),
{
    let ghost lv = left@;
    let ghost rv = right@;
    let swapped = left.len() > right.len();
    let (smaller, bigger) = if !swapped {
        (left, right)
    } else {
        (right, left)
    };
    let ghost sv = smaller@;
    let ghost bv = bigger@;
    let i = bigger.len() / 2;
    let j = co_rank(&smaller, &bigger, i);
    let sb = copy_range(&smaller, 0, j);
    let st = copy_range(&smaller, j, smaller.len());
    let bb = copy_range(&bigger, 0, i);
    let bt = copy_range(&bigger, i, bigger.len());
    proof {
        lemma_sorted_subrange(sv, 0, j as int);
        lemma_sorted_subrange(sv, j as int, sv.len() as int);
        lemma_sorted_subrange(bv, 0, i as int);
        lemma_sorted_subrange(bv, i as int, bv.len() as int);
        assert forall|k: int| 0 <= k < i implies bv[k] <= bv[i as int] by {}
        assert forall|k: int| i <= k < bv.len() implies bv[k] >= bv[i as int] by {}
        lemma_merge_decomposition(sv, bv, j as int, i as int, bv[i as int]);
        assert(sv.take(j as int) =~= sb@);
        assert(sv.skip(j as int) =~= st@);
        assert(bv.take(i as int) =~= bb@);
        assert(bv.skip(i as int) =~= bt@);
        if swapped {
            assert(sv + bv =~= rv + lv);
            lemma_sort_of_comm(rv, lv);
        } else {
            assert(sv + bv =~= lv + rv);
        }
    }
    (sb, bb, st, bt)
}

/// Balanced Parallel Merge on the work-stealing pool: no budget is threaded
/// through; load balancing is left to the pool.  Runs at or below
/// `threshold` elements are merged sequentially.
pub(crate) fn pool_merge_rec(left: Vec<u64>, right: Vec<u64>, threshold: usize) -> (out: Vec<
    u64,
>)
    requires
        sorted(left@),
        sorted(right@),
        threshold >= 1,
    ensures
        out@ == sort_of(left@ + right@),
    decreases left@.len() + right@.len(),
{
    if left.len() <= threshold || right.len() <= threshold {
        return merge_vecs(&left, &right);
    }
    let (sb, bb, st, bt) = split_for_merge(left, right);
    let ghost bot_view = sb@ + bb@;
    let ghost top_view = st@ + bt@;
    let (bottom, top) = fork_join(
        (move || -> (r: Vec<u64>)
            ensures
                r@ == sort_of(bot_view),
            {
                pool_merge_rec(sb, bb, threshold)
            }),
        (move || -> (r: Vec<u64>)
            ensures
                r@ == sort_of(top_view),
            {
                pool_merge_rec(st, bt, threshold)
            }),
    );
    let mut out = bottom;
    let mut tail = top;
    out.append(&mut tail);
    out
}

/// Balanced Parallel Merge under an explicit worker budget: the lower side
/// of the split receives workers in proportion to its share of the output,
/// and a budget of one -- or a run at or below `threshold` elements --
/// falls back to the sequential merge.
pub(crate) fn budget_merge_rec(
    left: Vec<u64>,
    right: Vec<u64>,
    num_threads: u8,
    threshold: usize,
) -> (out: Vec<u64>)
    requires
        sorted(left@),
        sorted(right@),
        num_threads >= 1,
        threshold >= 1,
        left@.len() + right@.len() <= usize::MAX,
    ensures
        out@ == sort_of(left@ + right@),
    decreases left@.len() + right@.len(),
{
    if num_threads == 1 || left.len() <= threshold || right.len() <= threshold {
        return merge_vecs(&left, &right);
    }
    let total = left.len() + right.len();
    let (sb, bb, st, bt) = split_for_merge(left, right);
    let bottom_len = sb.len() + bb.len();
    let bottom_threads = split_budget(num_threads, bottom_len, total);
    let top_threads = num_threads - bottom_threads;
    let ghost bot_view = sb@ + bb@;
    let ghost top_view = st@ + bt@;
    let (bottom, top) = fork_join(
        (move || -> (r: Vec<u64>)
            ensures
                r@ == sort_of(bot_view),
            {
                budget_merge_rec(sb, bb, bottom_threads, threshold)
            }),
        (move || -> (r: Vec<u64>)
            ensures
                r@ == sort_of(top_view),
            {
                budget_merge_rec(st, bt, top_threads, threshold)
            }),
    );
    let mut out = bottom;
    let mut tail = top;
    out.append(&mut tail);
    out
}

/// Balanced merge decomposed cooperatively: the same split as the parallel
/// forms, with the two units run one after the other in this execution
/// context.
pub(crate) fn coop_merge_rec(left: Vec<u64>, right: Vec<u64>, threshold: usize) -> (out: Vec<
    u64,
>)
    requires
        sorted(left@),
        sorted(right@),
        threshold >= 1,
    ensures
        out@ == sort_of(left@ + right@),
    decreases left@.len() + right@.len(),
{
    if left.len() <= threshold || right.len() <= threshold {
        return merge_vecs(&left, &right);
    }
    let (sb, bb, st, bt) = split_for_merge(left, right);
    let mut out = coop_merge_rec(sb, bb, threshold);
    let mut tail = coop_merge_rec(st, bt, threshold);
    out.append(&mut tail);
    out
}

/// Balanced Parallel Merge of two sorted runs into `output` under a worker
/// budget, splitting at co-rank points and falling back to the sequential
/// merge below three elements or on a budget of one.
pub fn thread_merge(left: &Vec<u64>, right: &Vec<u64>, output: &mut Vec<u64>, num_threads: u8)
    requires
        sorted(left@),
        sorted(right@),
        old(output)@.len() == left@.len() + right@.len(),
        num_threads >= 1,
    ensures
        final(output)@ == sort_of(left@ + right@),
{
    let combined_len = output.len();
    let l = copy_range(left, 0, left.len());
    let r = copy_range(right, 0, right.len());
    proof {
        assert(l@ =~= left@);
        assert(r@ =~= right@);
        assert(l@.len() + r@.len() == combined_len);
    }
    *output = budget_merge_rec(l, r, num_threads, 2);
}

/// Balanced Parallel Merge of two sorted runs into `output` on the
/// work-stealing pool, falling back to the sequential merge below two
/// elements.
pub fn rayon_merge(left_half: &Vec<u64>, right_half: &Vec<u64>, output: &mut Vec<u64>)
    requires
        sorted(left_half@),
        sorted(right_half@),
        old(output)@.len() == left_half@.len() + right_half@.len(),
    ensures
        final(output)@ == sort_of(left_half@ + right_half@),
{
    let l = copy_range(left_half, 0, left_half.len());
    let r = copy_range(right_half, 0, right_half.len());
    proof {
        assert(l@ =~= left_half@);
        assert(r@ =~= right_half@);
    }
    *output = pool_merge_rec(l, r, 1);
}

} // verus!
