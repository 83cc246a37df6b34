//! The sums that the tallies of an elimination follow.
use vstd::prelude::*;

verus! {

/// `1 + 2 + ... + n`.
pub open spec fn triangle(n: nat) -> nat
    decreases n,
{
    if n == 0 {
        0
    } else {
        triangle((n - 1) as nat) + n
    }
}

/// The rows below the diagonal in the first `done` columns of a matrix with
/// `rows` rows, counted column by column: `(rows - 1) + (rows - 2) + ...`,
/// `done` terms.
pub open spec fn pairs_below(rows: nat, done: nat) -> nat
    decreases done,
{
    if done == 0 {
        0
    } else {
        pairs_below(rows, (done - 1) as nat) + (rows - done) as nat
    }
}

/// The same sum with every term squared: `(rows - 1)^2 + (rows - 2)^2 + ...`,
/// `done` terms.
pub open spec fn squares_below(rows: nat, done: nat) -> nat
    decreases done,
{
    if done == 0 {
        0
    } else {
        squares_below(rows, (done - 1) as nat) + ((rows - done) * (rows - done)) as nat
    }
}

/// `2 * triangle(n) == n * (n + 1)`.
pub proof fn lemma_triangle_closed(n: nat)
    ensures
        2 * triangle(n) == n * (n + 1),
    decreases n,
{
    if n > 0 {
        lemma_triangle_closed((n - 1) as nat);
        assert(2 * triangle(n) == n * (n + 1)) by (nonlinear_arith)
            requires
                2 * triangle((n - 1) as nat) == (n - 1) * n,
                triangle(n) == triangle((n - 1) as nat) + n,
                n > 0,
        ;
    } else {
        assert(n * (n + 1) == 0) by (nonlinear_arith)
            requires
                n == 0,
        ;
    }
}

/// `triangle` never goes down.
pub proof fn lemma_triangle_monotone(m: nat, n: nat)
    requires
        m <= n,
    ensures
        triangle(m) <= triangle(n),
    decreases n,
{
    if m < n {
        lemma_triangle_monotone(m, (n - 1) as nat);
    }
}

/// `2 * pairs_below(rows, done) == done * (2 * rows - done - 1)`.
pub proof fn lemma_pairs_closed(rows: nat, done: nat)
    requires
        done <= rows,
    ensures
        2 * pairs_below(rows, done) == done * (2 * rows - done - 1),
    decreases done,
{
    if done > 0 {
        lemma_pairs_closed(rows, (done - 1) as nat);
        assert(2 * pairs_below(rows, done) == done * (2 * rows - done - 1)) by (nonlinear_arith)
            requires
                2 * pairs_below(rows, (done - 1) as nat) == (done - 1) * (2 * rows - (done - 1)
                    - 1),
                pairs_below(rows, done) == pairs_below(rows, (done - 1) as nat) + (rows - done),
                0 < done <= rows,
        ;
    } else {
        assert(done * (2 * rows - done - 1) == 0) by (nonlinear_arith)
            requires
                done == 0,
        ;
    }
}

/// Over all columns there are `rows * (rows - 1) / 2` rows below the
/// diagonal.
pub proof fn lemma_pairs_total(rows: nat)
    ensures
        2 * pairs_below(rows, rows) == rows * (rows - 1),
{
    lemma_pairs_closed(rows, rows);
    assert(rows * (2 * rows - rows - 1) == rows * (rows - 1)) by (nonlinear_arith);
}

/// `pairs_below` never goes down as columns are added.
pub proof fn lemma_pairs_monotone(rows: nat, fewer: nat, more: nat)
    requires
        fewer <= more <= rows,
    ensures
        pairs_below(rows, fewer) <= pairs_below(rows, more),
    decreases more,
{
    if fewer < more {
        lemma_pairs_monotone(rows, fewer, (more - 1) as nat);
    }
}

/// `squares_below` never goes down as columns are added.
pub proof fn lemma_squares_monotone(rows: nat, fewer: nat, more: nat)
    requires
        fewer <= more <= rows,
    ensures
        squares_below(rows, fewer) <= squares_below(rows, more),
    decreases more,
{
    if fewer < more {
        lemma_squares_monotone(rows, fewer, (more - 1) as nat);
    }
}

/// The closed form of `squares_below`, as a difference of two sums of
/// squares.
pub proof fn lemma_squares_closed(rows: nat, done: nat)
    requires
        done <= rows,
    ensures
        6 * squares_below(rows, done) == (rows - 1) * rows * (2 * rows - 1) - (rows - 1 - done) * (
        rows - done) * (2 * (rows - done) - 1),
    decreases done,
{
    if done > 0 {
        lemma_squares_closed(rows, (done - 1) as nat);
        let k: int = rows - done;
        let whole: int = (rows - 1) * rows * (2 * rows - 1);
        assert(k * (k + 1) * (2 * k + 1) - (k - 1) * k * (2 * k - 1) == 6 * (k * k))
            by (nonlinear_arith);
        assert((rows - 1 - (done - 1)) * (rows - (done - 1)) * (2 * (rows - (done - 1)) - 1) == k
            * (k + 1) * (2 * k + 1)) by (nonlinear_arith)
            requires
                k == rows - done,
        ;
        assert(6 * squares_below(rows, (done - 1) as nat) == whole - k * (k + 1) * (2 * k + 1));
        assert(squares_below(rows, done) == squares_below(rows, (done - 1) as nat) + k * k);
        assert((rows - 1 - done) * (rows - done) * (2 * (rows - done) - 1) == (k - 1) * k * (2 * k
            - 1)) by (nonlinear_arith)
            requires
                k == rows - done,
        ;
    } else {
        assert((rows - 1 - 0) * (rows - 0) * (2 * (rows - 0) - 1) == (rows - 1) * rows * (2 * rows
            - 1)) by (nonlinear_arith);
    }
}

/// With at most 2344 rows, the squares below the diagonal and the rows
/// together stay within 32 bits.
pub proof fn lemma_squares_fit(rows: nat, done: nat)
    requires
        done <= rows <= 2344,
    ensures
        squares_below(rows, done) + rows <= u32::MAX,
{
    lemma_squares_monotone(rows, done, rows);
    lemma_squares_closed(rows, rows);
    let whole: int = (rows - 1) * rows * (2 * rows - 1);
    assert((rows - 1 - rows) * (rows - rows) * (2 * (rows - rows) - 1) == 0) by (nonlinear_arith);
    assert(6 * squares_below(rows, rows) == whole);
    if rows > 0 {
        assert(whole <= 2343 * 2344 * 4687) by (nonlinear_arith)
            requires
                whole == (rows - 1) * rows * (2 * rows - 1),
                1 <= rows <= 2344,
        ;
    } else {
        assert(whole == 0) by (nonlinear_arith)
            requires
                whole == (rows - 1) * rows * (2 * rows - 1),
                rows == 0,
        ;
    }
}

/// With at most 2344 rows, the rows below the diagonal stay within 32 bits.
pub proof fn lemma_pairs_fit(rows: nat, done: nat)
    requires
        done <= rows <= 2344,
    ensures
        pairs_below(rows, done) + rows <= u32::MAX,
{
    lemma_pairs_monotone(rows, done, rows);
    lemma_pairs_total(rows);
    assert(rows * (rows - 1) <= 2344 * 2343) by (nonlinear_arith)
        requires
            rows <= 2344,
    ;
}

/// With at most 2344 terms, `triangle` stays within 32 bits.
pub proof fn lemma_triangle_fit(n: nat)
    requires
        n <= 2344,
    ensures
        triangle(n) <= 2344 * 2345,
{
    lemma_triangle_closed(n);
    assert(n * (n + 1) <= 2344 * 2345) by (nonlinear_arith)
        requires
            n <= 2344,
    ;
}

} // verus!
