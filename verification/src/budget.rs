//! Worker-budget splitting: the explicit, testable policy that divides a
//! parent budget between the two halves of a balanced parallel merge.

use vstd::prelude::*;

verus! {

/// The budget the lower half of a balanced merge receives: workers in
/// proportion to the lower half's share of the output, rounded to nearest
/// (halves away from zero) and clamped so that each side keeps at least one
/// worker.
pub open spec fn budget_split(budget: u8, lower_len: int, total_len: int) -> u8
    recommends
        budget >= 2,
        0 < total_len,
        0 <= lower_len <= total_len,
{
    let share = (2 * lower_len * (budget as int) + total_len) / (2 * total_len);
    if share < 1 {
        1u8
    } else if share > budget - 1 {
        (budget - 1) as u8
    } else {
        share as u8
    }
}

/// Splits a worker budget between the two halves of a balanced merge whose
/// lower half covers `lower_len` of the `total_len` output positions.  The
/// lower half receives the returned budget; the upper half keeps the rest,
/// so both sides stay at or above one worker and the two never exceed the
/// parent budget.
pub fn split_budget(budget: u8, lower_len: usize, total_len: usize) -> (lower: u8)
    requires
        budget >= 2,
        0 < total_len,
        lower_len <= total_len,
    ensures
        lower == budget_split(budget, lower_len as int, total_len as int),
        1 <= lower <= budget - 1,
{
    let ll: u128 = lower_len as u128;
    let bd: u128 = budget as u128;
    let tl: u128 = total_len as u128;
    proof {
        assert(ll * bd <= 0xffff_ffff_ffff_ffff * 255) by (nonlinear_arith)
            requires
                0 <= ll <= 0xffff_ffff_ffff_ffff,
                0 <= bd <= 255,
        ;
    }
    let p: u128 = 2 * (ll * bd) + tl;
    let q: u128 = 2 * tl;
    let share: u128 = p / q;
    let cap: u128 = (budget - 1) as u128;
    let lower: u128 = if share < 1 {
        1
    } else if share > cap {
        cap
    } else {
        share
    };
    proof {
        assert(2 * ((lower_len as int) * (budget as int)) == 2 * (lower_len as int) * (
        budget as int)) by (nonlinear_arith);
        assert(p == 2 * (lower_len as int) * (budget as int) + total_len);
        assert(share == (2 * (lower_len as int) * (budget as int) + total_len) / (2
            * total_len));
        assert(lower <= 254);
    }
    lower as u8
}

} // verus!
