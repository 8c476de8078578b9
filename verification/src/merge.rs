//! Sequential Merge and the sequential Sort Orchestrator: the base cases that
//! every parallel component bottoms out in.

use crate::model::{all_leq, sort_of, sorted};
use crate::model::{lemma_all_leq_push, lemma_sort_of_sorted_identity, lemma_sorted_push};
use crate::model::lemma_sorted_perm_is_sort_of;
use vstd::prelude::*;
use vstd::seq_lib::group_to_multiset_ensures;
use vstd::seq_lib::lemma_multiset_commutative;

verus! {

/// Returns a copy of `v[lo..hi]`.
pub(crate) fn copy_range(v: &Vec<u64>, lo: usize, hi: usize) -> (r: Vec<u64>)
    requires
        lo <= hi <= v@.len(),
    ensures
        r@ == v@.subrange(lo as int, hi as int),
{
    let mut r: Vec<u64> = Vec::new();
    let mut k: usize = lo;
    while k < hi
        invariant
            lo <= k <= hi <= v@.len(),
            r@ == v@.subrange(lo as int, k as int),
        decreases hi - k,
    {
        let x = v[k];
        r.push(x);
        k = k + 1;
        proof {
            assert(v@.subrange(lo as int, k as int) =~= v@.subrange(lo as int, k - 1).push(
                v@[k - 1],
            ));
        }
    }
    r
}

/// Reports whether `list` is non-decreasing under the ordering relation.
pub fn is_sorted(list: &Vec<u64>) -> (r: bool)
    ensures
        r == sorted(list@),
{
    if list.len() == 0 {
        return true;
    }
    let mut k: usize = 1;
    while k < list.len()
        invariant
            1 <= k <= list@.len(),
            sorted(list@.take(k as int)),
        decreases list@.len() - k,
    {
        if list[k - 1] > list[k] {
            proof {
                assert(list@[k as int - 1] > list@[k as int]);
                assert(!sorted(list@));
            }
            return false;
        }
        proof {
            let t = list@.take(k as int + 1);
            assert forall|i: int, j: int| 0 <= i < j < t.len() implies t[i] <= t[j] by {
                let p = list@.take(k as int);
                if j < k {
                    assert(p[i] <= p[j]);
                } else if i < k - 1 {
                    assert(p[i] <= p[k - 1]);
                }
            }
        }
        k = k + 1;
    }
    proof {
        assert(list@.take(list@.len() as int) =~= list@);
    }
    true
}

/// Merges two sorted runs into a fresh sorted output in linear time.  The
/// merge is left-biased: on ties the element of `a` is emitted first.
pub(crate) fn merge_vecs(a: &Vec<u64>, b: &Vec<u64>) -> (out: Vec<u64>)
    requires
        sorted(a@),
        sorted(b@),
    ensures
        out@ == sort_of(a@ + b@),
{
    let mut out: Vec<u64> = Vec::new();
    let mut i: usize = 0;
    let mut j: usize = 0;
    proof {
        broadcast use group_to_multiset_ensures;
        broadcast use vstd::multiset::group_multiset_axioms;

        assert(out@.to_multiset() =~= a@.take(0).to_multiset().add(b@.take(0).to_multiset()));
    }
    while i < a.len() || j < b.len()
        invariant
            i <= a@.len(),
            j <= b@.len(),
            sorted(a@),
            sorted(b@),
            out@.len() == i + j,
            sorted(out@),
            out@.to_multiset() == a@.take(i as int).to_multiset().add(
                b@.take(j as int).to_multiset(),
            ),
            i < a@.len() ==> all_leq(out@, a@[i as int]),
            j < b@.len() ==> all_leq(out@, b@[j as int]),
        decreases a@.len() - i + b@.len() - j,
    {
        let take_left: bool = if j == b.len() {
            true
        } else if i == a.len() {
            false
        } else {
            a[i] <= b[j]
        };
        if take_left {
            let ghost prev = out@;
            let x = a[i];
            out.push(x);
            i = i + 1;
            proof {
                broadcast use group_to_multiset_ensures;
                broadcast use vstd::multiset::group_multiset_axioms;

                assert(a@.take(i as int) =~= a@.take(i as int - 1).push(x));
                assert(out@.to_multiset() =~= a@.take(i as int).to_multiset().add(
                    b@.take(j as int).to_multiset(),
                ));
                lemma_sorted_push(prev, x);
                if i < a@.len() {
                    lemma_all_leq_push(prev, x, a@[i as int]);
                }
                if j < b@.len() {
                    lemma_all_leq_push(prev, x, b@[j as int]);
                }
            }
        } else {
            let ghost prev = out@;
            let x = b[j];
            out.push(x);
            j = j + 1;
            proof {
                broadcast use group_to_multiset_ensures;
                broadcast use vstd::multiset::group_multiset_axioms;

                assert(b@.take(j as int) =~= b@.take(j as int - 1).push(x));
                assert(out@.to_multiset() =~= a@.take(i as int).to_multiset().add(
                    b@.take(j as int).to_multiset(),
                ));
                lemma_sorted_push(prev, x);
                if i < a@.len() {
                    lemma_all_leq_push(prev, x, a@[i as int]);
                }
                if j < b@.len() {
                    lemma_all_leq_push(prev, x, b@[j as int]);
                }
            }
        }
    }
    proof {
        assert(a@.take(a@.len() as int) =~= a@);
        assert(b@.take(b@.len() as int) =~= b@);
        lemma_multiset_commutative(a@, b@);
        lemma_sorted_perm_is_sort_of(out@, a@ + b@);
    }
    out
}

/// Sequential Merge: fills `output` with the merge of the two sorted runs
/// `list1` and `list2`.  `output` must already have the combined length; a
/// mismatch is a caller bug, excluded by contract.
pub fn merge(list1: &Vec<u64>, list2: &Vec<u64>, output: &mut Vec<u64>)
    requires
        sorted(list1@),
        sorted(list2@),
        old(output)@.len() == list1@.len() + list2@.len(),
    ensures
        final(output)@ == sort_of(list1@ + list2@),
{
    *output = merge_vecs(list1, list2);
}

/// Recursive sequential merge sort over an owned sequence.
pub(crate) fn sort_vec(list: Vec<u64>) -> (r: Vec<u64>)
    ensures
        r@ == sort_of(list@),
    decreases list@.len(),
{
    if list.len() <= 1 {
        proof {
            lemma_sort_of_sorted_identity(list@);
        }
        return list;
    }
    let pivot = list.len() / 2;
    let mut left = list;
    let right = left.split_off(pivot);
    proof {
        crate::model::lemma_sort_of_ensures(list@.subrange(0, pivot as int));
        crate::model::lemma_sort_of_ensures(
            list@.subrange(pivot as int, list@.len() as int),
        );
    }
    let ls = sort_vec(left);
    let rs = sort_vec(right);
    let out = merge_vecs(&ls, &rs);
    proof {
        crate::model::lemma_merge_of_sorted_halves(list@, pivot as int, ls@, rs@, out@);
    }
    out
}

/// Sort Orchestrator, sequential form: sorts `list` in place by recursive
/// halving and merging, with no backend dispatch.  This is the budget-one
/// efficiency floor of the parallel orchestrators.
pub fn merge_sort(list: &mut Vec<u64>)
    ensures
        final(list)@ == sort_of(old(list)@),
{
    let owned = list.split_off(0);
    proof {
        assert(owned@ =~= old(list)@);
    }
    let sorted_list = sort_vec(owned);
    *list = sorted_list;
}

} // verus!
