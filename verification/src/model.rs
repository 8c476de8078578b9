//! Mathematical model of sorting: the ordering relation, sortedness, and the
//! unique sorted permutation of a sequence.
//!
//! Every executable sort in this crate is specified against [`sort_of`], the
//! sorted permutation of the input.  Because a sorted permutation of a given
//! multiset of elements is unique, stating `result == sort_of(input)` pins the
//! result down completely, and makes the outputs of all concurrency backends
//! provably identical.

use vstd::prelude::*;
use vstd::relations::{sorted_by, total_ordering};
use vstd::seq_lib::group_to_multiset_ensures;
use vstd::seq_lib::lemma_multiset_commutative;
use vstd::seq_lib::lemma_sorted_unique;

verus! {

/// The ordering relation: numeric less-or-equal on elements.
pub open spec fn leq() -> spec_fn(u64, u64) -> bool {
    |x: u64, y: u64| x <= y
}

/// `s` is non-decreasing under the ordering relation.
pub open spec fn sorted(s: Seq<u64>) -> bool {
    forall|i: int, j: int| 0 <= i < j < s.len() ==> s[i] <= s[j]
}

/// The sorted permutation of `s`: the sequence that every sort in this crate
/// returns, whatever backend runs it.
pub open spec fn sort_of(s: Seq<u64>) -> Seq<u64> {
    s.sort_by(leq())
}

/// Every element of `s` is at most `v`.
pub open spec fn all_leq(s: Seq<u64>, v: u64) -> bool {
    forall|k: int| 0 <= k < s.len() ==> s[k] <= v
}

/// Every element of `s` is at least `v`.
pub open spec fn all_geq(s: Seq<u64>, v: u64) -> bool {
    forall|k: int| 0 <= k < s.len() ==> s[k] >= v
}

/// The ordering relation is a total order.
pub proof fn lemma_leq_total()
    ensures
        total_ordering(leq()),
{
    let r = leq();
    assert forall|x: u64| #[trigger] r(x, x) by {}
}

/// `sorted` agrees with vstd's `sorted_by` under the ordering relation.
pub proof fn lemma_sorted_is_sorted_by(s: Seq<u64>)
    ensures
        sorted(s) <==> sorted_by(s, leq()),
{
    let r = leq();
    if sorted(s) {
        assert forall|i: int, j: int| 0 <= i < j < s.len() implies #[trigger] r(s[i], s[j]) by {}
    }
    if sorted_by(s, r) {
        assert forall|i: int, j: int| 0 <= i < j < s.len() implies s[i] <= s[j] by {
            assert(r(s[i], s[j]));
        }
    }
}

/// A sorted permutation of `s` is exactly `sort_of(s)`: sorted output with the
/// right multiset of elements is unique.
pub proof fn lemma_sorted_perm_is_sort_of(a: Seq<u64>, s: Seq<u64>)
    requires
        sorted(a),
        a.to_multiset() == s.to_multiset(),
    ensures
        a == sort_of(s),
{
    lemma_leq_total();
    s.lemma_sort_by_ensures(leq());
    lemma_sorted_is_sorted_by(a);
    lemma_sorted_unique(a, sort_of(s), leq());
}

/// `sort_of(s)` is non-decreasing and is a permutation of `s`.
pub proof fn lemma_sort_of_ensures(s: Seq<u64>)
    ensures
        sorted(sort_of(s)),
        sort_of(s).to_multiset() == s.to_multiset(),
        sort_of(s).len() == s.len(),
{
    broadcast use group_to_multiset_ensures;

    lemma_leq_total();
    s.lemma_sort_by_ensures(leq());
    lemma_sorted_is_sorted_by(sort_of(s));
    assert(sort_of(s).len() == sort_of(s).to_multiset().len());
    assert(s.len() == s.to_multiset().len());
}

/// Sorting is idempotent: sorting a sorted result changes nothing.
pub proof fn lemma_sort_of_idempotent(s: Seq<u64>)
    ensures
        sort_of(sort_of(s)) == sort_of(s),
{
    lemma_sort_of_ensures(s);
    lemma_sorted_perm_is_sort_of(sort_of(s), sort_of(s));
}

/// A sequence that is already sorted is its own sort, element for element.
pub proof fn lemma_sort_of_sorted_identity(s: Seq<u64>)
    requires
        sorted(s),
    ensures
        sort_of(s) == s,
{
    lemma_sorted_perm_is_sort_of(s, s);
}

/// Backend independence: any two non-decreasing sequences holding the same
/// multiset of elements as `s` are equal, so every correct sort of `s` --
/// whichever backend or worker budget produced it -- returns the same
/// sequence.
pub proof fn lemma_sorted_perm_unique(a: Seq<u64>, b: Seq<u64>, s: Seq<u64>)
    requires
        sorted(a),
        sorted(b),
        a.to_multiset() == s.to_multiset(),
        b.to_multiset() == s.to_multiset(),
    ensures
        a == b,
{
    lemma_sorted_perm_is_sort_of(a, s);
    lemma_sorted_perm_is_sort_of(b, s);
}

/// An upper bound on all elements survives any permutation.
pub proof fn lemma_all_leq_perm(a: Seq<u64>, b: Seq<u64>, v: u64)
    requires
        a.to_multiset() == b.to_multiset(),
        all_leq(a, v),
    ensures
        all_leq(b, v),
{
    broadcast use group_to_multiset_ensures;

    assert forall|k: int| 0 <= k < b.len() implies b[k] <= v by {
        assert(b.contains(b[k]));
        assert(b.to_multiset().count(b[k]) > 0);
        assert(a.contains(b[k]));
        let i = choose|i: int| 0 <= i < a.len() && a[i] == b[k];
        assert(a[i] <= v);
    }
}

/// A lower bound on all elements survives any permutation.
pub proof fn lemma_all_geq_perm(a: Seq<u64>, b: Seq<u64>, v: u64)
    requires
        a.to_multiset() == b.to_multiset(),
        all_geq(a, v),
    ensures
        all_geq(b, v),
{
    broadcast use group_to_multiset_ensures;

    assert forall|k: int| 0 <= k < b.len() implies b[k] >= v by {
        assert(b.contains(b[k]));
        assert(b.to_multiset().count(b[k]) > 0);
        assert(a.contains(b[k]));
        let i = choose|i: int| 0 <= i < a.len() && a[i] == b[k];
        assert(a[i] >= v);
    }
}

/// Appending an element that dominates a sorted sequence keeps it sorted.
pub proof fn lemma_sorted_push(s: Seq<u64>, x: u64)
    requires
        sorted(s),
        all_leq(s, x),
    ensures
        sorted(s.push(x)),
{
    assert forall|i: int, j: int| 0 <= i < j < s.push(x).len() implies s.push(x)[i] <= s.push(
        x,
    )[j] by {
        if j < s.len() {
            assert(s[i] <= s[j]);
        } else {
            assert(s.push(x)[j] == x);
            assert(s[i] <= x);
        }
    }
}

/// An upper bound on a sequence extends over a push of a bounded element.
pub proof fn lemma_all_leq_push(s: Seq<u64>, x: u64, v: u64)
    requires
        all_leq(s, v),
        x <= v,
    ensures
        all_leq(s.push(x), v),
{
    assert forall|k: int| 0 <= k < s.push(x).len() implies s.push(x)[k] <= v by {
        if k < s.len() {
            assert(s[k] <= v);
        }
    }
}

/// Merging is insensitive to the order of its two runs.
pub proof fn lemma_sort_of_comm(x: Seq<u64>, y: Seq<u64>)
    ensures
        sort_of(x + y) == sort_of(y + x),
{
    lemma_sort_of_ensures(y + x);
    lemma_multiset_commutative(x, y);
    lemma_multiset_commutative(y, x);
    assert((y + x).to_multiset() =~= (x + y).to_multiset());
    lemma_sorted_perm_is_sort_of(sort_of(y + x), x + y);
}

/// Concatenating a run bounded above by `v` with a run bounded below by `v`
/// yields a sorted sequence.
pub proof fn lemma_sorted_concat(x: Seq<u64>, y: Seq<u64>, v: u64)
    requires
        sorted(x),
        sorted(y),
        all_leq(x, v),
        all_geq(y, v),
    ensures
        sorted(x + y),
{
    assert forall|i: int, j: int| 0 <= i < j < (x + y).len() implies (x + y)[i] <= (x + y)[j] by {
        if j < x.len() {
            assert((x + y)[i] == x[i] && (x + y)[j] == x[j]);
        } else if i >= x.len() {
            assert((x + y)[i] == y[i - x.len()] && (x + y)[j] == y[j - x.len()]);
        } else {
            assert((x + y)[i] == x[i] && (x + y)[j] == y[j - x.len()]);
            assert(x[i] <= v);
            assert(y[j - x.len()] >= v);
        }
    }
}

/// A contiguous slice of a sorted sequence is sorted.
pub proof fn lemma_sorted_subrange(s: Seq<u64>, lo: int, hi: int)
    requires
        sorted(s),
        0 <= lo <= hi <= s.len(),
    ensures
        sorted(s.subrange(lo, hi)),
{
    assert forall|i: int, j: int|
        0 <= i < j < s.subrange(lo, hi).len() implies s.subrange(lo, hi)[i] <= s.subrange(
        lo,
        hi,
    )[j] by {
        assert(s[lo + i] <= s[lo + j]);
    }
}

/// Merging the sorts of the two halves of a sequence sorts the sequence:
/// the inductive step of every orchestrator in this crate.
pub proof fn lemma_merge_of_sorted_halves(
    list: Seq<u64>,
    pivot: int,
    ls: Seq<u64>,
    rs: Seq<u64>,
    out: Seq<u64>,
)
    requires
        0 <= pivot <= list.len(),
        ls == sort_of(list.subrange(0, pivot)),
        rs == sort_of(list.subrange(pivot, list.len() as int)),
        out == sort_of(ls + rs),
    ensures
        out == sort_of(list),
{
    broadcast use vstd::multiset::group_multiset_axioms;

    lemma_sort_of_ensures(list.subrange(0, pivot));
    lemma_sort_of_ensures(list.subrange(pivot, list.len() as int));
    lemma_sort_of_ensures(ls + rs);
    lemma_multiset_commutative(ls, rs);
    lemma_take_skip_multiset(list, pivot);
    assert(list.take(pivot) =~= list.subrange(0, pivot));
    assert(list.skip(pivot) =~= list.subrange(pivot, list.len() as int));
    lemma_sorted_perm_is_sort_of(out, list);
}

/// The prefix and suffix at a cut point together carry the whole multiset.
pub proof fn lemma_take_skip_multiset(s: Seq<u64>, n: int)
    requires
        0 <= n <= s.len(),
    ensures
        s.take(n).to_multiset().add(s.skip(n).to_multiset()) == s.to_multiset(),
{
    lemma_multiset_commutative(s.take(n), s.skip(n));
    assert(s.take(n) + s.skip(n) =~= s);
}

} // verus!
