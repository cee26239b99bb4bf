//! The product the device is expected to return, as mathematics over the
//! flat, row-major operands.
use vstd::prelude::*;
use vstd::arithmetic::div_mod::lemma_fundamental_div_mod;
use vstd::arithmetic::div_mod::lemma_fundamental_div_mod_converse;
use vstd::arithmetic::div_mod::lemma_multiply_divide_lt;

verus! {

/// The sum of the first `terms` products along row `row` of the left operand
/// (`k` entries to a row) and column `col` of the right operand (`n` entries
/// to a row).
pub open spec fn dot(
    left: Seq<u64>,
    right: Seq<u64>,
    k: int,
    n: int,
    row: int,
    col: int,
    terms: nat,
) -> int
    decreases terms,
{
    if terms == 0 {
        0
    } else {
        let i = terms - 1;
        dot(left, right, k, n, row, col, i as nat) + left[row * k + i] * right[col + i * n]
    }
}

/// The entry of the product at flat position `index`: row `index / n` of the
/// left operand times column `index % n` of the right one.
pub open spec fn product_entry(left: Seq<u64>, right: Seq<u64>, k: nat, n: nat, index: int) -> int {
    dot(left, right, k as int, n as int, index / (n as int), index % (n as int), k)
}

/// A flat position built from a row and a column inside the matrix lies
/// inside the matrix.
pub proof fn lemma_flat_position(row: int, col: int, rows: int, cols: int)
    by (nonlinear_arith)
    requires
        0 <= row < rows,
        0 <= col < cols,
    ensures
        0 <= row * cols + col < rows * cols,
        0 <= col + row * cols < rows * cols,
{
}

/// A flat position inside a matrix splits into a row and a column inside it.
pub proof fn lemma_row_and_column(index: int, rows: int, cols: int)
    requires
        0 <= index < rows * cols,
        0 <= rows,
        0 <= cols,
    ensures
        0 < cols,
        0 <= index / cols < rows,
        0 <= index % cols < cols,
        index == (index / cols) * cols + index % cols,
{
    assert(0 < cols) by (nonlinear_arith)
        requires
            0 <= index < rows * cols,
            0 <= cols,
    ;
    lemma_fundamental_div_mod(index, cols);
    assert(index < cols * rows) by (nonlinear_arith)
        requires
            index < rows * cols,
    ;
    lemma_multiply_divide_lt(index, cols, rows);
    assert((index / cols) * cols == cols * (index / cols)) by (nonlinear_arith);
}

/// The entry of the product at the flat position of row `row` and column
/// `col` is the dot product along that row and that column.
pub proof fn lemma_product_entry_at(
    left: Seq<u64>,
    right: Seq<u64>,
    k: nat,
    n: nat,
    row: int,
    col: int,
)
    requires
        0 <= col < n,
    ensures
        product_entry(left, right, k, n, row * n + col) == dot(
            left,
            right,
            k as int,
            n as int,
            row,
            col,
            k,
        ),
{
    lemma_fundamental_div_mod_converse(row * n + col, n as int, row, col);
}

/// Every partial sum of a dot product is at least zero, and taking more
/// terms never makes it smaller.
pub proof fn lemma_dot_grows(
    left: Seq<u64>,
    right: Seq<u64>,
    k: int,
    n: int,
    row: int,
    col: int,
    fewer: nat,
    more: nat,
)
    requires
        fewer <= more,
    ensures
        0 <= dot(left, right, k, n, row, col, fewer) <= dot(left, right, k, n, row, col, more),
    decreases more,
{
    if more == 0 {
    } else {
        let i = more - 1;
        let a = left[row * k + i];
        let b = right[col + i * n];
        assert(0 <= a * b) by (nonlinear_arith)
            requires
                0 <= a,
                0 <= b,
        ;
        if fewer < more {
            lemma_dot_grows(left, right, k, n, row, col, fewer, i as nat);
        } else {
            lemma_dot_grows(left, right, k, n, row, col, i as nat, i as nat);
        }
    }
}

} // verus!
