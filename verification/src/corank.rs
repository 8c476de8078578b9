//! Co-Rank Splitter: the logarithmic-time search that makes merging
//! parallelizable, and the proof that the split it finds decomposes a merge
//! into two independent merges.

use crate::model::{all_geq, all_leq, sort_of, sorted};
use crate::model::{lemma_all_geq_perm, lemma_all_leq_perm, lemma_sort_of_ensures};
use crate::model::{lemma_sorted_concat, lemma_sorted_perm_is_sort_of, lemma_take_skip_multiset};
use vstd::prelude::*;
use vstd::seq_lib::lemma_multiset_commutative;

verus! {

/// Co-Rank Splitter: returns the offset `j` into `smaller` such that cutting
/// `bigger` at `pivot` and `smaller` at `j` is a valid split point of the
/// merged output at offset `pivot + j`.  The search finds the insertion
/// point by comparison, so it needs no exact-match equality; elements of
/// `smaller` equal to `bigger[pivot]` land below the split, so ties are
/// consumed from `smaller` first.  Runs in `O(log(len(smaller)))`.
pub fn co_rank(smaller: &Vec<u64>, bigger: &Vec<u64>, pivot: usize) -> (j: usize)
    requires
        sorted(smaller@),
        pivot < bigger@.len(),
    ensures
        j <= smaller@.len(),
        forall|k: int| 0 <= k < j ==> smaller@[k] <= bigger@[pivot as int],
        forall|k: int| j <= k < smaller@.len() ==> smaller@[k] > bigger@[pivot as int],
{
    let target = bigger[pivot];
    let mut lo: usize = 0;
    let mut hi: usize = smaller.len();
    while lo < hi
        invariant
            lo <= hi <= smaller@.len(),
            sorted(smaller@),
            target == bigger@[pivot as int],
            forall|k: int| 0 <= k < lo ==> smaller@[k] <= target,
            forall|k: int| hi <= k < smaller@.len() ==> smaller@[k] > target,
        decreases hi - lo,
    {
        let mid = lo + (hi - lo) / 2;
        if smaller[mid] <= target {
            proof {
                assert forall|k: int| 0 <= k < mid + 1 implies smaller@[k] <= target by {
                    if k < mid {
                        assert(smaller@[k] <= smaller@[mid as int]);
                    }
                }
            }
            lo = mid + 1;
        } else {
            proof {
                assert forall|k: int| mid <= k < smaller@.len() implies smaller@[k] > target by {
                    if k > mid {
                        assert(smaller@[mid as int] <= smaller@[k]);
                    }
                }
            }
            hi = mid;
        }
    }
    lo
}

/// Cutting two sorted runs at a split point around a pivot value `v` splits
/// their merge: the merge of the two lower parts, followed by the merge of
/// the two upper parts, is the merge of the whole.  This is why the two
/// recursive halves of the balanced parallel merge can run independently.
pub proof fn lemma_merge_decomposition(a: Seq<u64>, b: Seq<u64>, j: int, i: int, v: u64)
    requires
        sorted(a),
        sorted(b),
        0 <= j <= a.len(),
        0 <= i <= b.len(),
        forall|k: int| 0 <= k < j ==> a[k] <= v,
        forall|k: int| j <= k < a.len() ==> a[k] >= v,
        forall|k: int| 0 <= k < i ==> b[k] <= v,
        forall|k: int| i <= k < b.len() ==> b[k] >= v,
    ensures
        sort_of(a.take(j) + b.take(i)) + sort_of(a.skip(j) + b.skip(i)) == sort_of(a + b),
{
    broadcast use vstd::multiset::group_multiset_axioms;

    let bot = a.take(j) + b.take(i);
    let top = a.skip(j) + b.skip(i);
    lemma_sort_of_ensures(bot);
    lemma_sort_of_ensures(top);
    assert(all_leq(bot, v)) by {
        assert forall|k: int| 0 <= k < bot.len() implies bot[k] <= v by {
            if k < j {
                assert(bot[k] == a[k]);
            } else {
                assert(bot[k] == b[k - j]);
            }
        }
    }
    assert(all_geq(top, v)) by {
        assert forall|k: int| 0 <= k < top.len() implies top[k] >= v by {
            if k < a.len() - j {
                assert(top[k] == a[j + k]);
            } else {
                assert(top[k] == b[i + k - (a.len() - j)]);
            }
        }
    }
    lemma_all_leq_perm(bot, sort_of(bot), v);
    lemma_all_geq_perm(top, sort_of(top), v);
    lemma_sorted_concat(sort_of(bot), sort_of(top), v);
    lemma_multiset_commutative(sort_of(bot), sort_of(top));
    lemma_multiset_commutative(a.take(j), b.take(i));
    lemma_multiset_commutative(a.skip(j), b.skip(i));
    lemma_take_skip_multiset(a, j);
    lemma_take_skip_multiset(b, i);
    lemma_multiset_commutative(a, b);
    assert((sort_of(bot) + sort_of(top)).to_multiset() =~= (a + b).to_multiset());
    lemma_sorted_perm_is_sort_of(sort_of(bot) + sort_of(top), a + b);
}

/// Co-Rank correctness: with `j` the co-rank of pivot `i`, the first `i + j`
/// elements of the merge of `smaller` and `bigger` hold exactly the elements
/// of `smaller[..j]` together with those of `bigger[..i]`.
pub proof fn lemma_co_rank_correct(smaller: Seq<u64>, bigger: Seq<u64>, i: int, j: int)
    requires
        sorted(smaller),
        sorted(bigger),
        0 <= i < bigger.len(),
        0 <= j <= smaller.len(),
        forall|k: int| 0 <= k < j ==> smaller[k] <= bigger[i],
        forall|k: int| j <= k < smaller.len() ==> smaller[k] > bigger[i],
    ensures
        sort_of(smaller + bigger).take(i + j).to_multiset() == smaller.take(
            j,
        ).to_multiset().add(bigger.take(i).to_multiset()),
{
    let v = bigger[i];
    assert forall|k: int| i <= k < bigger.len() implies bigger[k] >= v by {}
    assert forall|k: int| 0 <= k < i implies bigger[k] <= v by {}
    lemma_merge_decomposition(smaller, bigger, j, i, v);
    let bot = smaller.take(j) + bigger.take(i);
    let top = smaller.skip(j) + bigger.skip(i);
    lemma_sort_of_ensures(bot);
    lemma_sort_of_ensures(top);
    assert(sort_of(smaller + bigger).take(i + j) =~= sort_of(bot));
    lemma_multiset_commutative(smaller.take(j), bigger.take(i));
}

} // verus!
