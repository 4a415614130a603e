//! Dividing a whole number of cells into equal shares.
//!
//! Space is handed out share by share: each share is what is still left,
//! divided by the number of shares still to come, rounded down. Early shares
//! thus get the quotient, and the remainder goes, one cell each, to the last
//! shares. The whole amount is gone after the last share.

use vstd::prelude::*;
use vstd::arithmetic::div_mod::{
    lemma_fundamental_div_mod, lemma_fundamental_div_mod_converse_div, lemma_mod_bound,
};

verus! {

/// The cells handed out by the first `k` of `parts` equal shares of `total`:
/// `k` times the quotient, and one cell more for each share among the last
/// `total % parts`. Without any part, nothing is handed out.
pub open spec fn shares_given(total: int, parts: int, k: int) -> int {
    if parts <= 0 {
        0
    } else {
        let early = parts - total % parts;
        (total / parts) * k + if k > early {
            k - early
        } else {
            0
        }
    }
}

/// The size of share number `k` (counted from zero) of `parts` shares of `total`.
pub open spec fn share_at(total: int, parts: int, k: int) -> int {
    shares_given(total, parts, k + 1) - shares_given(total, parts, k)
}

/// Nothing is handed out before the first share.
pub proof fn lemma_shares_given_none(total: int, parts: int)
    requires
        0 <= total,
    ensures
        shares_given(total, parts, 0) == 0,
{
    if parts > 0 {
        lemma_mod_bound(total, parts);
        assert((total / parts) * 0 == 0) by (nonlinear_arith);
    }
}

/// All shares together are the whole amount.
pub proof fn lemma_shares_given_all(total: int, parts: int)
    requires
        0 <= total,
        0 < parts,
    ensures
        shares_given(total, parts, parts) == total,
{
    lemma_fundamental_div_mod(total, parts);
    lemma_mod_bound(total, parts);
    assert((total / parts) * parts == parts * (total / parts)) by (nonlinear_arith);
}

/// A share is the quotient or one more, never negative.
pub proof fn lemma_share_at_bounds(total: int, parts: int, k: int)
    requires
        0 <= total,
        0 < parts,
        0 <= k < parts,
    ensures
        total / parts <= share_at(total, parts, k) <= total / parts + 1,
        0 <= share_at(total, parts, k),
{
    let q = total / parts;
    lemma_mod_bound(total, parts);
    assert(q * (k + 1) == q * k + q) by (nonlinear_arith);
    assert(0 <= q) by (nonlinear_arith)
        requires
            0 <= total,
            0 < parts,
            q == total / parts,
    ;
}

/// The shares handed out so far never exceed the whole, and never shrink.
pub proof fn lemma_shares_given_bounds(total: int, parts: int, k: int)
    requires
        0 <= total,
        0 < parts,
        0 <= k <= parts,
    ensures
        0 <= shares_given(total, parts, k) <= total,
    decreases parts - k,
{
    if k == parts {
        lemma_shares_given_all(total, parts);
    } else {
        lemma_shares_given_bounds(total, parts, k + 1);
        lemma_share_at_bounds(total, parts, k);
        if k == 0 {
            lemma_shares_given_none(total, parts);
        } else {
            lemma_shares_given_nonnegative(total, parts, k);
        }
    }
}

proof fn lemma_shares_given_nonnegative(total: int, parts: int, k: int)
    requires
        0 <= total,
        0 < parts,
        0 <= k,
    ensures
        0 <= shares_given(total, parts, k),
{
    let q = total / parts;
    assert(0 <= q * k) by (nonlinear_arith)
        requires
            0 <= total,
            0 < parts,
            0 <= k,
            q == total / parts,
    ;
}

/// The next share is what is left, divided by the shares still to come,
/// rounded down.
pub proof fn lemma_share_is_running_quotient(total: int, parts: int, k: int)
    requires
        0 <= total,
        0 < parts,
        0 <= k < parts,
    ensures
        share_at(total, parts, k) == (total - shares_given(total, parts, k)) / (parts - k),
{
    let q = total / parts;
    let r = total % parts;
    let early = parts - r;
    let left = total - shares_given(total, parts, k);
    let d = parts - k;
    lemma_fundamental_div_mod(total, parts);
    lemma_mod_bound(total, parts);
    assert(parts * q == q * parts) by (nonlinear_arith);
    assert(q * (k + 1) == q * k + q) by (nonlinear_arith);
    assert(q * parts - q * k == q * d) by (nonlinear_arith)
        requires
            d == parts - k,
    ;
    if k < early {
        // left == q * d + r, and r < d
        assert(left == q * d + r);
        lemma_fundamental_div_mod_converse_div(left, d, q, r);
    } else {
        // left == (q + 1) * d
        assert((q + 1) * d == q * d + d) by (nonlinear_arith);
        assert(left == (q + 1) * d + 0);
        lemma_fundamental_div_mod_converse_div(left, d, q + 1, 0);
    }
}

/// One share of what is left over `shares_left` shares still to come; nothing
/// where no share is to come.
pub fn next_share(left: usize, shares_left: u128) -> (share: usize)
    ensures
        shares_left == 0 ==> share == 0,
        shares_left > 0 ==> share == left as int / shares_left as int,
        share <= left,
{
    if shares_left == 0 {
        0
    } else {
        let share: u128 = left as u128 / shares_left;
        assert(share <= left) by (nonlinear_arith)
            requires
                share == left as int / shares_left as int,
                shares_left > 0,
        ;
        share as usize
    }
}

} // verus!
