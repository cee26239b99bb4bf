//! The product of two ramps in closed form.
use vstd::prelude::*;
use crate::operand::lemma_ramp_entry_at;
use crate::operand::ramp_seq;
use crate::problem::dims_valid;
use crate::problem::ProblemView;
use crate::product::dot;
use crate::product::lemma_flat_position;
use crate::product::lemma_product_entry_at;

verus! {

/// Six times the sum, over `i` below `terms`, of `(row + i) * (i + col)`.
/// The factor six keeps the closed form free of division.
pub open spec fn six_ramp_dot(row: int, col: int, terms: int) -> int {
    6 * terms * row * col
        + 3 * (row + col) * terms * (terms - 1)
        + (terms - 1) * terms * (2 * terms - 1)
}

/// Adding the term of index `i` to the closed form of `i` terms gives the
/// closed form of `i + 1` terms.
proof fn lemma_six_ramp_dot_step(row: int, col: int, i: int)
    ensures
        six_ramp_dot(row, col, i + 1) == six_ramp_dot(row, col, i) + 6 * ((row + i) * (i + col)),
{
    let rc: int = row * col;
    let sum: int = row + col;
    let square: int = i * i;
    let cube: int = square * i;
    let rci: int = rc * i;
    let si: int = sum * i;
    let ss: int = sum * square;
    assert(6 * (i + 1) * row * col == 6 * rci + 6 * rc) by (nonlinear_arith)
        requires
            rc == row * col,
            rci == rc * i,
    ;
    assert(6 * i * row * col == 6 * rci) by (nonlinear_arith)
        requires
            rc == row * col,
            rci == rc * i,
    ;
    assert(3 * (row + col) * (i + 1) * (i + 1 - 1) == 3 * ss + 3 * si) by (nonlinear_arith)
        requires
            sum == row + col,
            square == i * i,
            si == sum * i,
            ss == sum * square,
    ;
    assert(3 * (row + col) * i * (i - 1) == 3 * ss - 3 * si) by (nonlinear_arith)
        requires
            sum == row + col,
            square == i * i,
            si == sum * i,
            ss == sum * square,
    ;
    assert((i + 1 - 1) * (i + 1) * (2 * (i + 1) - 1) == 2 * cube + 3 * square + i)
        by (nonlinear_arith)
        requires
            square == i * i,
            cube == square * i,
    ;
    assert((i - 1) * i * (2 * i - 1) == 2 * cube - 3 * square + i) by (nonlinear_arith)
        requires
            square == i * i,
            cube == square * i,
    ;
    assert(6 * ((row + i) * (i + col)) == 6 * rc + 6 * si + 6 * square) by (nonlinear_arith)
        requires
            rc == row * col,
            sum == row + col,
            si == sum * i,
            square == i * i,
    ;
}

/// Along row `row` of the `m` by `k` ramp and column `col` of the `k` by `n`
/// ramp, the first `terms` products add up to the closed form.
pub proof fn lemma_ramp_dot(k: nat, m: nat, n: nat, row: int, col: int, terms: nat)
    requires
        dims_valid(k as int, m as int, n as int),
        0 <= row < m,
        0 <= col < n,
        terms <= k,
    ensures
        6 * dot(ramp_seq(m, k), ramp_seq(k, n), k as int, n as int, row, col, terms)
            == six_ramp_dot(row, col, terms as int),
    decreases terms,
{
    if terms == 0 {
        assert(six_ramp_dot(row, col, 0) == 0) by (nonlinear_arith);
    } else {
        let i: int = terms - 1;
        lemma_ramp_dot(k, m, n, row, col, i as nat);
        lemma_flat_position(row, i, m as int, k as int);
        lemma_flat_position(i, col, k as int, n as int);
        lemma_ramp_entry_at(row, i, k as int);
        lemma_ramp_entry_at(i, col, n as int);
        let a = ramp_seq(m, k)[row * k + i];
        let b = ramp_seq(k, n)[col + i * n];
        assert(a == row + i);
        assert(b == i + col);
        lemma_six_ramp_dot_step(row, col, i);
        assert(6 * (a * b) == 6 * ((row + i) * (i + col)));
    }
}

/// Where both operands are ramps, the entry of the product at row `row` and
/// column `col` is the sum over `i` below `k` of `(row + i) * (i + col)`,
/// here in closed form. For `k = 4` that is `4 * row * col + 6 * (row + col)
/// + 14`.
pub proof fn lemma_ramp_product(problem: ProblemView, row: int, col: int)
    requires
        problem.wf(),
        problem.left == ramp_seq(problem.m, problem.k),
        problem.right == ramp_seq(problem.k, problem.n),
        0 <= row < problem.m,
        0 <= col < problem.n,
    ensures
        6 * problem.product_at(row * problem.n + col) == six_ramp_dot(row, col, problem.k as int),
{
    lemma_product_entry_at(problem.left, problem.right, problem.k, problem.n, row, col);
    lemma_ramp_dot(problem.k, problem.m, problem.n, row, col, problem.k);
}

} // verus!
