//! Counting the pairs of nodes in the order in which the generators visit
//! them: `(0, 1), (0, 2), .., (0, n - 1), (1, 2), ..`.

use vstd::prelude::*;

verus! {

/// The number of pairs `(i, j)` with `i < j < n`.
pub open spec fn pair_count(n: nat) -> nat {
    (n * (n - 1) / 2) as nat
}

/// The number of pairs `(a, b)` with `a < b < n` and `a < i`: the pairs of
/// the rows before row `i`.
pub open spec fn pairs_before_row(n: nat, i: nat) -> nat {
    (i * (2 * n - i - 1) / 2) as nat
}

/// The place of the pair `(i, j)` among the pairs with `i < j < n`, counted
/// from zero.
pub open spec fn pair_rank(n: nat, i: nat, j: nat) -> nat {
    (pairs_before_row(n, i) + (j - i - 1)) as nat
}

/// `(a, b)` comes before `(c, d)` in the order of the generators.
pub open spec fn pair_before(a: usize, b: usize, c: usize, d: usize) -> bool {
    a < c || (a == c && b < d)
}

/// Row `i` holds `n - 1 - i` pairs.
pub proof fn lemma_row_step(n: nat, i: nat)
    requires
        i < n,
    ensures
        pairs_before_row(n, i + 1) == pairs_before_row(n, i) + (n - 1 - i),
{
    let p = i * (2 * n - i - 1);
    let q = (i + 1) * (2 * n - (i + 1) - 1);
    assert(q == p + 2 * (n - 1 - i)) by (nonlinear_arith)
        requires
            p == i * (2 * n - i - 1),
            q == (i + 1) * (2 * n - (i + 1) - 1),
    ;
    assert(p >= 0) by (nonlinear_arith)
        requires
            p == i * (2 * n - i - 1),
            i < n,
    ;
}

/// All rows together hold every pair.
pub proof fn lemma_rows_total(n: nat)
    ensures
        pairs_before_row(n, n) == pair_count(n),
{
    assert(n * (2 * n - n - 1) == n * (n - 1)) by (nonlinear_arith);
}

} // verus!
