//! Arithmetic facts about rows of an unbounded history stored in a ring of `n` slots: the row `i`
//! lives in slot `i % n`.

use vstd::prelude::*;
use vstd::arithmetic::div_mod::lemma_fundamental_div_mod;
use vstd::arithmetic::div_mod::lemma_mod_bound;

verus! {

/// Two rows less than `n` apart share a slot only when they are the same row.
pub proof fn lemma_close_rows_distinct_slots(a: int, b: int, n: int)
    requires
        n > 0,
        0 <= b <= a,
        a - b < n,
        a % n == b % n,
    ensures
        a == b,
{
    lemma_fundamental_div_mod(a, n);
    lemma_fundamental_div_mod(b, n);
    lemma_mod_bound(a, n);
    lemma_mod_bound(b, n);
    let qa = a / n;
    let qb = b / n;
    assert(a - b == n * (qa - qb)) by (nonlinear_arith)
        requires
            a == n * qa + a % n,
            b == n * qb + b % n,
            a % n == b % n,
    ;
    assert(qa - qb == 0) by (nonlinear_arith)
        requires
            n > 0,
            0 <= n * (qa - qb) < n,
    {
        if qa - qb > 0 {
            assert(n * (qa - qb) >= n * 1);
        } else if qa - qb < 0 {
            assert(n * (qa - qb) <= n * -1);
        }
    }
}

/// Rows exactly `n` apart share a slot.
pub proof fn lemma_rows_one_lap_apart(a: int, b: int, n: int)
    requires
        n > 0,
        0 <= b,
        a == b + n,
    ensures
        a % n == b % n,
{
    lemma_fundamental_div_mod(a, n);
    lemma_fundamental_div_mod(b, n);
    lemma_mod_bound(a, n);
    lemma_mod_bound(b, n);
    let qa = a / n;
    let qb = b / n;
    assert(n * (qa - qb - 1) == b % n - a % n) by (nonlinear_arith)
        requires
            a == n * qa + a % n,
            b == n * qb + b % n,
            a == b + n,
    ;
    assert(qa - qb - 1 == 0) by (nonlinear_arith)
        requires
            n > 0,
            -n < n * (qa - qb - 1) < n,
    {
        if qa - qb - 1 > 0 {
            assert(n * (qa - qb - 1) >= n * 1);
        } else if qa - qb - 1 < 0 {
            assert(n * (qa - qb - 1) <= n * -1);
        }
    }
}

/// With `b` at most `n - 1` rows behind `a`, the row after `a` lands on `b`'s slot exactly when it
/// is a full lap ahead of `b`.
pub proof fn lemma_next_row_meets(a: int, b: int, n: int)
    requires
        n > 0,
        0 <= b <= a,
        a - b < n,
    ensures
        ((a + 1) % n == b % n) <==> (a + 1 - b == n),
{
    if a + 1 - b == n {
        lemma_rows_one_lap_apart(a + 1, b, n);
    } else if (a + 1) % n == b % n {
        lemma_close_rows_distinct_slots(a + 1, b, n);
    }
}

} // verus!
