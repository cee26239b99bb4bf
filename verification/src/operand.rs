//! The operands of the self-test: row-major matrices whose entry at row `r`
//! and column `c` is `r + c`.
use vstd::prelude::*;
use vstd::arithmetic::div_mod::lemma_fundamental_div_mod;
use vstd::arithmetic::div_mod::lemma_fundamental_div_mod_converse;
use vstd::arithmetic::mul::lemma_mul_inequality;

verus! {

/// Whether a vector of 64-bit entries can have `len` of them: its size in
/// bytes has to fit in `isize`.
pub open spec fn len_valid(len: int) -> bool {
    0 <= len && 8 * len <= isize::MAX
}

/// The value a ramp of the given width holds at flat position `i`: the row
/// of that position plus its column.
pub open spec fn ramp_entry(i: int, width: int) -> int {
    i / width + i % width
}

/// The ramp with `rows` rows and `cols` columns, laid out row after row.
pub open spec fn ramp_seq(rows: nat, cols: nat) -> Seq<u64> {
    Seq::new(rows * cols, |i: int| ramp_entry(i, cols as int) as u64)
}

/// A ramp entry never exceeds the flat position it stands at.
pub proof fn lemma_ramp_entry_bounded(i: int, width: int)
    requires
        0 <= i,
        0 < width,
    ensures
        0 <= ramp_entry(i, width) <= i,
{
    lemma_fundamental_div_mod(i, width);
    lemma_mul_inequality(1, width, i / width);
}

/// In a ramp, the entry at row `row` and column `col` is `row + col`.
pub proof fn lemma_ramp_entry_at(row: int, col: int, width: int)
    requires
        0 <= row,
        0 <= col < width,
    ensures
        ramp_entry(row * width + col, width) == row + col,
{
    lemma_fundamental_div_mod_converse(row * width + col, width, row, col);
}

/// Builds the ramp with `rows` rows and `cols` columns.
pub fn ramp(rows: usize, cols: usize) -> (v: Vec<u64>)
    requires
        len_valid(rows * cols),
    ensures
        v@ == ramp_seq(rows as nat, cols as nat),
{
    let len: usize = rows * cols;
    let mut v: Vec<u64> = Vec::with_capacity(len);
    let mut i: usize = 0;
    while i < len
        invariant
            len == rows * cols,
            i <= len,
            v@.len() == i,
            forall|j: int| 0 <= j < i ==> v@[j] == ramp_entry(j, cols as int),
        decreases len - i,
    {
        assert(cols > 0) by (nonlinear_arith)
            requires
                i < rows * cols,
        ;
        proof {
            lemma_ramp_entry_bounded(i as int, cols as int);
        }
        let entry: u64 = (i / cols) as u64 + (i % cols) as u64;
        v.push(entry);
        i = i + 1;
    }
    assert(v@ =~= ramp_seq(rows as nat, cols as nat));
    v
}

} // verus!
