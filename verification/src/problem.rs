//! One instance of the self-test: the three dimensions and the two operands,
//! with the launch parameters, the expected product and the comparison.
use vstd::prelude::*;
use crate::operand::len_valid;
use crate::operand::ramp;
use crate::operand::ramp_seq;
use crate::product::dot;
use crate::product::lemma_dot_grows;
use crate::product::lemma_flat_position;
use crate::product::lemma_product_entry_at;
use crate::product::lemma_row_and_column;
use crate::product::product_entry;

verus! {

/// Whether three dimensions can be handed to the device and worked with on
/// the host: each fits in 32 bits, and each of the three matrices has a
/// length that a vector can have.
pub open spec fn dims_valid(k: int, m: int, n: int) -> bool {
    &&& 0 <= k <= u32::MAX
    &&& 0 <= m <= u32::MAX
    &&& 0 <= n <= u32::MAX
    &&& len_valid(m * k)
    &&& len_valid(k * n)
    &&& len_valid(m * n)
}

/// Single precision holds every whole number from zero up to this one
/// exactly: two to the power of 24.
pub const SINGLE_EXACT_MAX: u64 = 16_777_216;

/// What a [`Problem`] stands for: a left operand of `m` rows and `k`
/// columns, and a right operand of `k` rows and `n` columns, both row-major.
pub struct ProblemView {
    pub k: nat,
    pub m: nat,
    pub n: nat,
    pub left: Seq<u64>,
    pub right: Seq<u64>,
}

impl ProblemView {
    /// The dimensions are valid and the operands have the lengths that the
    /// dimensions give them.
    pub open spec fn wf(self) -> bool {
        &&& dims_valid(self.k as int, self.m as int, self.n as int)
        &&& self.left.len() == self.m * self.k
        &&& self.right.len() == self.k * self.n
    }

    /// Number of entries of the product.
    pub open spec fn product_len(self) -> nat {
        self.m * self.n
    }

    /// The entry of the product at flat position `index`, as an integer of
    /// any size.
    pub open spec fn product_at(self, index: int) -> int {
        product_entry(self.left, self.right, self.k, self.n, index)
    }

    /// The entry of the product at `index` as the host can hold it: `None`
    /// outside the product, and where the entry does not fit in 64 bits.
    pub open spec fn expected_entry(self, index: int) -> Option<u64> {
        if 0 <= index < self.product_len() && self.product_at(index) <= u64::MAX {
            Some(self.product_at(index) as u64)
        } else {
            None
        }
    }

    /// Whether `result` is the product, entry for entry.
    pub open spec fn is_product(self, result: Seq<u64>) -> bool {
        &&& result.len() == self.product_len()
        &&& forall|i: int| 0 <= i < result.len() ==> result[i] == self.product_at(i)
    }

    /// Whether a device that computes in single precision can hold the
    /// operands and the product exactly: no entry of any of the three is
    /// above `SINGLE_EXACT_MAX`.
    pub open spec fn exact_in_single(self) -> bool {
        &&& forall|i: int| 0 <= i < self.left.len() ==> self.left[i] <= SINGLE_EXACT_MAX
        &&& forall|i: int| 0 <= i < self.right.len() ==> self.right[i] <= SINGLE_EXACT_MAX
        &&& forall|i: int| 0 <= i < self.product_len() ==> self.product_at(i) <= SINGLE_EXACT_MAX
    }

    /// Where single precision holds the operands and the product exactly, it
    /// holds every step on the way to the entry at row `row` and column `col`
    /// exactly as well, for a device that adds the products up in order: no
    /// running sum and no single product is above `SINGLE_EXACT_MAX`.
    pub proof fn lemma_exact_steps(self, row: int, col: int, terms: nat)
        requires
            self.wf(),
            self.exact_in_single(),
            0 <= row < self.m,
            0 <= col < self.n,
            terms < self.k,
        ensures
            0 <= dot(self.left, self.right, self.k as int, self.n as int, row, col, terms)
                <= SINGLE_EXACT_MAX,
            0 <= self.left[row * self.k + terms] * self.right[col + terms * self.n]
                <= SINGLE_EXACT_MAX,
    {
        let k = self.k as int;
        let n = self.n as int;
        let next = (terms + 1) as nat;
        lemma_flat_position(row, col, self.m as int, n);
        lemma_product_entry_at(self.left, self.right, self.k, self.n, row, col);
        assert(self.product_at(row * n + col) <= SINGLE_EXACT_MAX);
        lemma_flat_position(row, terms as int, self.m as int, k);
        lemma_flat_position(terms as int, col, k, n);
        lemma_dot_grows(self.left, self.right, k, n, row, col, terms, next);
        lemma_dot_grows(self.left, self.right, k, n, row, col, next, self.k);
        let a = self.left[row * k + terms];
        let b = self.right[col + terms * n];
        assert(dot(self.left, self.right, k, n, row, col, next) == dot(
            self.left,
            self.right,
            k,
            n,
            row,
            col,
            terms,
        ) + a * b);
        assert(0 <= a * b) by (nonlinear_arith)
            requires
                0 <= a,
                0 <= b,
        ;
    }

    /// A result is the product exactly where it has the product's length and
    /// each of its entries is the expected one.
    pub proof fn lemma_product_is_expected(self, result: Seq<u64>)
        ensures
            self.is_product(result) <==> (result.len() == self.product_len() && forall|i: int|
                0 <= i < result.len() ==> self.expected_entry(i) == Some(result[i])),
    {
        assert forall|i: int| 0 <= i < result.len() implies 0 <= #[trigger] self.product_at(i) by {
            self.lemma_product_at_nonnegative(i);
        }
        if self.is_product(result) {
            assert forall|i: int| 0 <= i < result.len() implies self.expected_entry(i) == Some(
                result[i],
            ) by {
                assert(result[i] == self.product_at(i));
            }
        }
        if result.len() == self.product_len() && forall|i: int|
            0 <= i < result.len() ==> self.expected_entry(i) == Some(result[i]) {
            assert forall|i: int| 0 <= i < result.len() implies result[i] == self.product_at(
                i,
            ) by {
                assert(self.expected_entry(i) == Some(result[i]));
            }
        }
    }

    /// No entry of the product is negative.
    pub proof fn lemma_product_at_nonnegative(self, index: int)
        ensures
            0 <= self.product_at(index),
    {
        lemma_dot_grows(
            self.left,
            self.right,
            self.k as int,
            self.n as int,
            index / (self.n as int),
            index % (self.n as int),
            0,
            self.k,
        );
    }
}

/// Why a result was not accepted as the product.
#[derive(Debug, Clone, Copy, PartialEq, Eq)]
pub enum CheckError {
    /// The result has `result_len` entries where the product has
    /// `product_len`.
    Length { product_len: usize, result_len: usize },
    /// The entry at `index` is `found`; the product has `expected` there, or
    /// a value beyond 64 bits where `expected` is `None`. Every entry before
    /// `index` is right.
    Mismatch { index: usize, expected: Option<u64>, found: u64 },
}

/// The dimensions of one multiplication together with its two operands.
#[derive(Debug)]
pub struct Problem {
    k: usize,
    m: usize,
    n: usize,
    left: Vec<u64>,
    right: Vec<u64>,
}

impl View for Problem {
    type V = ProblemView;

    closed spec fn view(&self) -> ProblemView {
        ProblemView {
            k: self.k as nat,
            m: self.m as nat,
            n: self.n as nat,
            left: self.left@,
            right: self.right@,
        }
    }
}

/// Tells whether a matrix of `rows` rows and `cols` columns has a length
/// that a vector can have.
fn check_len(rows: usize, cols: usize) -> (ok: bool)
    ensures
        ok == len_valid(rows * cols),
{
    let longest: usize = (isize::MAX as usize) / 8;
    match rows.checked_mul(cols) {
        Some(len) => len <= longest,
        None => false,
    }
}

/// Tells whether `dims_valid` holds of three dimensions.
fn check_dims(k: usize, m: usize, n: usize) -> (ok: bool)
    ensures
        ok == dims_valid(k as int, m as int, n as int),
{
    let widest: usize = 0xffff_ffff;
    if k > widest || m > widest || n > widest {
        return false;
    }
    check_len(m, k) && check_len(k, n) && check_len(m, n)
}

/// Tells whether no entry of `values` is above `limit`.
fn all_at_most(values: &Vec<u64>, limit: u64) -> (r: bool)
    ensures
        r == forall|i: int| 0 <= i < values@.len() ==> values@[i] <= limit,
{
    let mut index: usize = 0;
    while index < values.len()
        invariant
            index <= values@.len(),
            forall|i: int| 0 <= i < index ==> values@[i] <= limit,
        decreases values@.len() - index,
    {
        if values[index] > limit {
            return false;
        }
        index = index + 1;
    }
    true
}

impl Problem {
    /// What holds of every problem: its view is well formed.
    #[verifier::type_invariant]
    pub open spec fn well_formed(self) -> bool {
        self@.wf()
    }

    /// The problem the self-test runs: `m` by `k` times `k` by `n`, both
    /// operands ramps. `None` exactly where the dimensions are not valid.
    pub fn new(k: usize, m: usize, n: usize) -> (r: Option<Problem>)
        ensures
            r.is_some() == dims_valid(k as int, m as int, n as int),
            r matches Some(p) ==> p@ == (ProblemView {
                k: k as nat,
                m: m as nat,
                n: n as nat,
                left: ramp_seq(m as nat, k as nat),
                right: ramp_seq(k as nat, n as nat),
            }),
    {
        if !check_dims(k, m, n) {
            return None;
        }
        let left: Vec<u64> = ramp(m, k);
        let right: Vec<u64> = ramp(k, n);
        Some(Problem { k, m, n, left, right })
    }

    /// A problem over operands of the caller's choice. `None` exactly where
    /// the dimensions are not valid or an operand has another length than
    /// the dimensions give it.
    pub fn from_operands(
        k: usize,
        m: usize,
        n: usize,
        left: Vec<u64>,
        right: Vec<u64>,
    ) -> (r: Option<Problem>)
        ensures
            r.is_some() == (dims_valid(k as int, m as int, n as int) && left@.len() == m * k
                && right@.len() == k * n),
            r matches Some(p) ==> p@ == (ProblemView {
                k: k as nat,
                m: m as nat,
                n: n as nat,
                left: left@,
                right: right@,
            }),
    {
        if !check_dims(k, m, n) {
            return None;
        }
        if left.len() != m * k || right.len() != k * n {
            return None;
        }
        Some(Problem { k, m, n, left, right })
    }

    /// The entry of the product at flat position `index`.
    pub fn expected_entry(&self, index: usize) -> (r: Option<u64>)
        ensures
            r == self@.expected_entry(index as int),
    {
        proof {
            use_type_invariant(self);
        }
        if index >= self.m * self.n {
            return None;
        }
        proof {
            lemma_row_and_column(index as int, self.m as int, self.n as int);
        }
        let row: usize = index / self.n;
        let col: usize = index % self.n;
        let mut acc: u64 = 0;
        let mut i: usize = 0;
        while i < self.k
            invariant
                self@.wf(),
                index < self@.product_len(),
                row == index / self.n,
                col == index % self.n,
                row < self.m,
                col < self.n,
                i <= self.k,
                acc == dot(
                    self.left@,
                    self.right@,
                    self.k as int,
                    self.n as int,
                    row as int,
                    col as int,
                    i as nat,
                ),
            decreases self.k - i,
        {
            proof {
                lemma_flat_position(row as int, i as int, self.m as int, self.k as int);
                lemma_flat_position(i as int, col as int, self.k as int, self.n as int);
                lemma_dot_grows(
                    self.left@,
                    self.right@,
                    self.k as int,
                    self.n as int,
                    row as int,
                    col as int,
                    (i + 1) as nat,
                    self.k as nat,
                );
            }
            let a: u64 = self.left[row * self.k + i];
            let b: u64 = self.right[col + i * self.n];
            let term: u64 = match a.checked_mul(b) {
                Some(t) => t,
                None => {
                    return None;
                },
            };
            acc = match acc.checked_add(term) {
                Some(s) => s,
                None => {
                    return None;
                },
            };
            i = i + 1;
        }
        Some(acc)
    }

    /// Compares what the device returned with the product. The entries are
    /// taken in order, so a mismatch names the first entry that is wrong.
    pub fn check(&self, result: &Vec<u64>) -> (r: Result<(), CheckError>)
        ensures
            (match r {
                Ok(()) => self@.is_product(result@),
                Err(CheckError::Length { product_len, result_len }) => {
                    &&& result@.len() != self@.product_len()
                    &&& product_len == self@.product_len()
                    &&& result_len == result@.len()
                },
                Err(CheckError::Mismatch { index, expected, found }) => {
                    &&& result@.len() == self@.product_len()
                    &&& index < result@.len()
                    &&& found == result@[index as int]
                    &&& found != self@.product_at(index as int)
                    &&& expected == self@.expected_entry(index as int)
                    &&& forall|i: int| 0 <= i < index ==> result@[i] == self@.product_at(i)
                },
            }),
    {
        proof {
            use_type_invariant(self);
        }
        let product_len: usize = self.m * self.n;
        if result.len() != product_len {
            return Err(CheckError::Length { product_len, result_len: result.len() });
        }
        let mut index: usize = 0;
        while index < product_len
            invariant
                product_len == self@.product_len(),
                result@.len() == product_len,
                index <= product_len,
                forall|i: int| 0 <= i < index ==> result@[i] == self@.product_at(i),
            decreases product_len - index,
        {
            let found: u64 = result[index];
            let expected: Option<u64> = self.expected_entry(index);
            proof {
                self@.lemma_product_at_nonnegative(index as int);
            }
            let same: bool = match expected {
                Some(value) => value == found,
                None => false,
            };
            if !same {
                return Err(CheckError::Mismatch { index, expected, found });
            }
            index = index + 1;
        }
        Ok(())
    }

    /// Tells whether single precision holds every entry of the operands and
    /// of the product exactly.
    pub fn exact_in_single(&self) -> (r: bool)
        ensures
            r == self@.exact_in_single(),
    {
        proof {
            use_type_invariant(self);
        }
        if !all_at_most(&self.left, SINGLE_EXACT_MAX) {
            return false;
        }
        if !all_at_most(&self.right, SINGLE_EXACT_MAX) {
            return false;
        }
        let product_len: usize = self.m * self.n;
        let mut index: usize = 0;
        while index < product_len
            invariant
                product_len == self@.product_len(),
                index <= product_len,
                forall|i: int| 0 <= i < index ==> self@.product_at(i) <= SINGLE_EXACT_MAX,
            decreases product_len - index,
        {
            proof {
                self@.lemma_product_at_nonnegative(index as int);
            }
            let exact: bool = match self.expected_entry(index) {
                Some(value) => value <= SINGLE_EXACT_MAX,
                None => false,
            };
            if !exact {
                return false;
            }
            index = index + 1;
        }
        true
    }

    /// Number of columns of the left operand and of rows of the right one.
    pub fn k(&self) -> (r: usize)
        ensures
            r == self@.k,
    {
        self.k
    }

    /// Number of rows of the left operand and of the product.
    pub fn m(&self) -> (r: usize)
        ensures
            r == self@.m,
    {
        self.m
    }

    /// Number of columns of the right operand and of the product.
    pub fn n(&self) -> (r: usize)
        ensures
            r == self@.n,
    {
        self.n
    }

    /// The left operand, row after row.
    pub fn left(&self) -> (r: &Vec<u64>)
        ensures
            r@ == self@.left,
    {
        &self.left
    }

    /// The right operand, row after row.
    pub fn right(&self) -> (r: &Vec<u64>)
        ensures
            r@ == self@.right,
    {
        &self.right
    }

    /// Number of entries the device has to return.
    pub fn product_len(&self) -> (r: usize)
        ensures
            r == self@.product_len(),
    {
        proof {
            use_type_invariant(self);
        }
        self.m * self.n
    }

    /// Number of work groups to launch along each of the three axes: one
    /// group for each entry of the product, rows along the first axis.
    pub fn group_counts(&self) -> (r: [u32; 3])
        ensures
            r@ == seq![self@.m as u32, self@.n as u32, 1u32],
    {
        proof {
            use_type_invariant(self);
        }
        let r: [u32; 3] = [self.m as u32, self.n as u32, 1];
        assert(r@ =~= seq![self@.m as u32, self@.n as u32, 1u32]);
        r
    }

    /// The three dimensions in the order in which the kernel reads them.
    pub fn push_constants(&self) -> (r: [u32; 3])
        ensures
            r@ == seq![self@.k as u32, self@.m as u32, self@.n as u32],
    {
        proof {
            use_type_invariant(self);
        }
        let r: [u32; 3] = [self.k as u32, self.m as u32, self.n as u32];
        assert(r@ =~= seq![self@.k as u32, self@.m as u32, self@.n as u32]);
        r
    }
}

} // verus!
