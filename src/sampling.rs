//! The sampling plan: how many cells of an erasure-coded block to fetch for
//! a target confidence, and which ones.

use vstd::prelude::*;
use vstd::arithmetic::power2::{pow2, lemma_pow2_unfold, lemma_pow2_strictly_increases, lemma2_to64};
use vstd::arithmetic::div_mod::{lemma_fundamental_div_mod, lemma_mod_bound};

verus! {

/// Factor by which erasure coding extends the rows of a block.
pub const EXTENSION_FACTOR: u32 = 2;

/// Upper bound on the number of cells sampled per block.
pub const MAX_CELL_COUNT: u32 = 10;

/// Size in bytes of a cell's data.
pub const CELL_SIZE: usize = 32;

/// Size in bytes of a cell's proof.
pub const PROOF_SIZE: usize = 48;

/// Size in bytes of a cell together with its proof.
pub const CELL_WITH_PROOF_SIZE: usize = CELL_SIZE + PROOF_SIZE;

/// Dimensions of the data matrix of a block, before extension.
pub struct Dimensions {
    pub rows: u16,
    pub cols: u16,
}

/// A cell of the extended matrix.
#[derive(Clone, Copy, Debug, PartialEq, Eq, Hash, Structural)]
pub struct Position {
    pub row: u32,
    pub col: u16,
}

impl Dimensions {
    pub open spec fn spec_extended_rows(&self) -> nat {
        (EXTENSION_FACTOR * self.rows) as nat
    }

    pub open spec fn spec_extended_size(&self) -> nat {
        (self.spec_extended_rows() * self.cols) as nat
    }

    /// Number of columns.
    pub fn cols(&self) -> (r: u16)
        ensures
            r == self.cols,
    {
        self.cols
    }

    /// Number of rows after erasure coding.
    pub fn extended_rows(&self) -> (r: u32)
        ensures
            r == self.spec_extended_rows(),
    {
        EXTENSION_FACTOR * (self.rows as u32)
    }

    /// Number of cells of the extended matrix.
    pub fn extended_size(&self) -> (r: u64)
        ensures
            r == self.spec_extended_size(),
    {
        let rows = self.extended_rows() as u64;
        assert(rows * self.cols <= 131070 * 65535) by (nonlinear_arith)
            requires
                rows <= 131070,
                self.cols <= 65535,
        ;
        rows * (self.cols as u64)
    }
}

/// Whether `n` samples reach the confidence `num / den` percent: the chance
/// `1 - num / (100 * den)` of missing a withheld part is at least `2^-n`,
/// i.e. `n >= -log2(1 - confidence / 100)`.
pub open spec fn reaches(num: int, den: int, n: nat) -> bool {
    (100 * den - num) * pow2(n) >= 100 * den
}

/// The least `n` from `from` up to `MAX_CELL_COUNT` that reaches the
/// confidence, or `MAX_CELL_COUNT + 1` where none does.
pub open spec fn least_reaching_from(num: int, den: int, from: nat) -> nat
    decreases 11 - from,
{
    if from > MAX_CELL_COUNT {
        (MAX_CELL_COUNT + 1) as nat
    } else if reaches(num, den, from) {
        from
    } else {
        least_reaching_from(num, den, from + 1)
    }
}

/// `ceil(-log2(1 - confidence / 100))` for `confidence = num / den`, where it
/// is at most `MAX_CELL_COUNT`; `MAX_CELL_COUNT + 1` where it is larger.
pub open spec fn raw_cell_count(num: int, den: int) -> nat {
    least_reaching_from(num, den, 0)
}

/// Whether the confidence `num / den` lies in `[50, 100)`.
pub open spec fn valid_confidence(num: int, den: int) -> bool {
    50 * den <= num < 100 * den
}

/// The number of cells to sample for the confidence `num / den` percent:
/// the raw count where the confidence is valid and the count lies in
/// `[1, MAX_CELL_COUNT]`, and otherwise the count for 99 percent.
pub open spec fn cell_count(num: int, den: int) -> nat {
    if valid_confidence(num, den) && 1 <= raw_cell_count(num, den) <= MAX_CELL_COUNT {
        raw_cell_count(num, den)
    } else {
        raw_cell_count(99, 1)
    }
}

/// Computes `raw_cell_count` by doubling the scaled miss chance.
fn least_reaching(num: u64, den: u64) -> (r: u32)
    requires
        num < 100 * den,
    ensures
        r == raw_cell_count(num as int, den as int),
{
    let total: u128 = 100 * (den as u128);
    let missing: u128 = total - (num as u128);
    let mut scaled: u128 = missing;
    let mut n: u32 = 0;
    proof {
        lemma2_to64();
    }
    while n <= MAX_CELL_COUNT
        invariant
            n <= MAX_CELL_COUNT + 1,
            total == 100 * den,
            missing == total - num,
            missing <= 100 * den,
            scaled == missing * pow2(n as nat),
            pow2(n as nat) <= 2048,
            pow2(11) == 2048,
            den <= u64::MAX,
            least_reaching_from(num as int, den as int, n as nat) == raw_cell_count(
                num as int,
                den as int,
            ),
        decreases 11 - n,
    {
        if scaled >= total {
            return n;
        }
        proof {
            lemma_pow2_unfold((n + 1) as nat);
            if n + 1 < 11 {
                lemma_pow2_strictly_increases((n + 1) as nat, 11);
            }
            assert(missing * pow2(n as nat) * 2 <= 100 * 18446744073709551615 * 2048 * 2)
                by (nonlinear_arith)
                requires
                    missing <= 100 * den,
                    den <= 18446744073709551615,
                    pow2(n as nat) <= 2048,
            ;
        }
        scaled = scaled * 2;
        n = n + 1;
        assert(scaled == missing * pow2(n as nat)) by (nonlinear_arith)
            requires
                scaled == missing * pow2((n - 1) as nat) * 2,
                pow2(n as nat) == 2 * pow2((n - 1) as nat),
        ;
    }
    MAX_CELL_COUNT + 1
}

/// Number of cells to sample so that a block is available with the given
/// confidence, stated as the fraction `numerator / denominator` percent.
/// A confidence outside `[50, 100)`, or one that asks for no cell or for more
/// than `MAX_CELL_COUNT` cells, is replaced by 99 percent.
pub fn cell_count_for_confidence(numerator: u64, denominator: u64) -> (r: u32)
    requires
        denominator > 0,
    ensures
        r == cell_count(numerator as int, denominator as int),
        1 <= r <= MAX_CELL_COUNT,
{
    let valid = (numerator as u128) >= 50 * (denominator as u128) && (numerator as u128) < 100
        * (denominator as u128);
    let fallback = least_reaching(99, 1);
    proof {
        lemma_fallback_count();
    }
    if valid {
        let count = least_reaching(numerator, denominator);
        if count >= 1 && count <= MAX_CELL_COUNT {
            return count;
        }
    }
    fallback
}

/// The fallback confidence of 99 percent asks for seven cells, since
/// `ceil(-log2(0.01)) == 7`.
pub proof fn lemma_fallback_count()
    ensures
        raw_cell_count(99, 1) == 7,
{
    lemma2_to64();
    reveal_with_fuel(least_reaching_from, 8);
}

/// Every confidence in `[50, 100)` asks for between one and
/// `MAX_CELL_COUNT` cells.
pub proof fn lemma_valid_confidence_count_in_range(num: int, den: int)
    requires
        den > 0,
        valid_confidence(num, den),
    ensures
        1 <= cell_count(num, den) <= MAX_CELL_COUNT,
{
    lemma_fallback_count();
}

/// A confidence outside `[50, 100)` asks for as many cells as a confidence of
/// 99 percent.
pub proof fn lemma_invalid_confidence_falls_back(num: int, den: int)
    requires
        den > 0,
        !valid_confidence(num, den),
    ensures
        cell_count(num, den) == cell_count(99, 1),
{
    lemma_fallback_count();
}

/// Relies on rand::seq::index::sample, drawing from rand::thread_rng:
/// `amount` distinct indices below `length` (it panics where
/// `amount > length`).
#[verifier::external_body]
fn sample_indices(length: usize, amount: usize) -> (r: Vec<usize>)
    requires
        amount <= length,
    ensures
        r@.len() == amount,
        r@.no_duplicates(),
        forall|i: int| 0 <= i < r@.len() ==> r@[i] < length,
{
    rand::seq::index::sample(&mut rand::thread_rng(), length, amount).into_vec()
}

/// Draws `cell_count` distinct random cells of the extended matrix, or all of
/// them where the matrix has fewer cells.
pub fn generate_random_cells(dimensions: Dimensions, cell_count: u32) -> (r: Vec<Position>)
    requires
        dimensions.spec_extended_size() <= usize::MAX,
    ensures
        r@.len() == if cell_count <= dimensions.spec_extended_size() {
            cell_count as nat
        } else {
            dimensions.spec_extended_size()
        },
        r@.no_duplicates(),
        forall|i: int|
            0 <= i < r@.len() ==> r@[i].row < dimensions.spec_extended_rows() && r@[i].col
                < dimensions.cols,
{
    let max_cells = dimensions.extended_size();
    let count = if max_cells < cell_count as u64 {
        max_cells
    } else {
        cell_count as u64
    };
    let rows = dimensions.extended_rows();
    let cols = dimensions.cols();
    let indices = sample_indices(max_cells as usize, count as usize);
    let mut cells: Vec<Position> = Vec::new();
    let mut i: usize = 0;
    while i < indices.len()
        invariant
            i <= indices@.len(),
            cells@.len() == i,
            max_cells == rows * cols,
            indices@.no_duplicates(),
            rows == dimensions.spec_extended_rows(),
            cols == dimensions.cols,
            forall|k: int| 0 <= k < indices@.len() ==> indices@[k] < max_cells,
            forall|k: int|
                0 <= k < i ==> #[trigger] cells@[k].row < rows && cells@[k].col < cols
                    && cells@[k].row * cols + cells@[k].col == indices@[k],
        decreases indices@.len() - i,
    {
        let index = indices[i] as u64;
        let c = cols as u64;
        assert(c > 0) by (nonlinear_arith)
            requires
                index < rows * c,
        ;
        let row = index / c;
        let col = index % c;
        proof {
            lemma_fundamental_div_mod(index as int, c as int);
            lemma_mod_bound(index as int, c as int);
            assert(row < rows) by (nonlinear_arith)
                requires
                    index == c * row + col,
                    index < rows * c,
                    col >= 0,
                    c > 0,
            ;
            assert(row * c + col == index) by (nonlinear_arith)
                requires
                    index == c * row + col,
            ;
        }
        let cell = Position { row: row as u32, col: col as u16 };
        assert(cell.row < rows && cell.col < cols && cell.row * cols + cell.col == indices@[i as int]);
        cells.push(cell);
        assert(cells@[i as int] == cell);
        i = i + 1;
    }
    assert forall|j: int| 0 <= j < cells@.len() implies cells@[j].row
        < dimensions.spec_extended_rows() && cells@[j].col < dimensions.cols by {
        assert(cells@[j].row < rows && cells@[j].col < cols);
    }
    assert forall|j: int, k: int|
        0 <= j < cells@.len() && 0 <= k < cells@.len() && j != k implies cells@[j]
        != cells@[k] by {
        assert(cells@[j].row * cols + cells@[j].col == indices@[j]);
        assert(cells@[k].row * cols + cells@[k].col == indices@[k]);
        assert(indices@[j] != indices@[k]);
    }
    cells
}

} // verus!
