//! The three row operations, and the record that each leaves behind.
use vstd::prelude::*;
use crate::arithmetic::Arithmetic;
use crate::binary64::{is_zero, spec_is_zero};
use crate::matrix::Matrix;

verus! {

/// Something that can show a step to whoever is watching.
pub trait StepPrinter {
    fn print_step(&self);
}

/// One row operation, as it was carried out.
#[derive(Clone, Copy, Debug, PartialEq, Eq)]
pub enum Step {
    SwapRows(SwapRowsStep),
    ScaleRow(ScaleRowStep),
    Eliminate(EliminateStep),
}

/// Two rows changed places.
#[derive(Clone, Copy, Debug, PartialEq, Eq)]
pub struct SwapRowsStep {
    pub source_row: usize,
    pub target_row: usize,
}

/// A row was multiplied by `factor`, a binary64 bit pattern.
#[derive(Clone, Copy, Debug, PartialEq, Eq)]
pub struct ScaleRowStep {
    pub source_row: usize,
    pub factor: u64,
}

/// `factor` times the source row was taken from the target row; `factor` is
/// a binary64 bit pattern.
#[derive(Clone, Copy, Debug, PartialEq, Eq)]
pub struct EliminateStep {
    pub source_row: usize,
    pub target_row: usize,
    pub factor: u64,
}

/// The rows `before` with rows `row1` and `row2` exchanged.
pub open spec fn rows_swapped(before: Seq<Seq<u64>>, row1: int, row2: int) -> Seq<Seq<u64>> {
    before.update(row1, before[row2]).update(row2, before[row1])
}

/// `after` is `before` with every entry of row `row` multiplied by `factor`,
/// and nothing else changed.
pub open spec fn row_scaled<D, M, S>(
    arithmetic: &Arithmetic<D, M, S>,
    before: Seq<Seq<u64>>,
    after: Seq<Seq<u64>>,
    row: int,
    factor: u64,
) -> bool where D: Fn(u64, u64) -> u64, M: Fn(u64, u64) -> u64, S: Fn(u64, u64) -> u64 {
    &&& after.len() == before.len()
    &&& forall|r: int| 0 <= r < before.len() && r != row ==> #[trigger] after[r] == before[r]
    &&& after[row].len() == before[row].len()
    &&& forall|c: int|
        0 <= c < before[row].len() ==> arithmetic.product(
            before[row][c],
            factor,
            #[trigger] after[row][c],
        )
}

/// `after` is `before` with `factor` times row `row` taken from row `target`,
/// entry by entry and from the entries as they were before, where `factor`
/// is the quotient of the target row's entry in column `row` by the pivot
/// `before[row][row]`. No other row has changed.
pub open spec fn row_eliminated<D, M, S>(
    arithmetic: &Arithmetic<D, M, S>,
    before: Seq<Seq<u64>>,
    after: Seq<Seq<u64>>,
    row: int,
    target: int,
    factor: u64,
) -> bool where D: Fn(u64, u64) -> u64, M: Fn(u64, u64) -> u64, S: Fn(u64, u64) -> u64 {
    &&& after.len() == before.len()
    &&& arithmetic.quotient(before[target][row], before[row][row], factor)
    &&& forall|r: int| 0 <= r < before.len() && r != target ==> #[trigger] after[r] == before[r]
    &&& after[target].len() == before[target].len()
    &&& forall|c: int|
        0 <= c < before[target].len() ==> arithmetic.reduced(
            before[target][c],
            factor,
            before[row][c],
            #[trigger] after[target][c],
        )
}

impl Matrix {
    /// Exchanges rows `row1` and `row2`.
    pub fn swap_rows(&mut self, row1: usize, row2: usize) -> (step: SwapRowsStep)
        requires
            row1 < old(self).spec_rows(),
            row2 < old(self).spec_rows(),
        ensures
            step.source_row == row1,
            step.target_row == row2,
            final(self).spec_rows() == old(self).spec_rows(),
            final(self).spec_cols() == old(self).spec_cols(),
            final(self)@ == rows_swapped(old(self)@, row1 as int, row2 as int),
    {
        self.exchange(row1, row2);
        SwapRowsStep { source_row: row1, target_row: row2 }
    }

    /// Multiplies every entry of row `row` by `factor`.
    pub fn scale_row<D, M, S>(
        &mut self,
        row: usize,
        factor: u64,
        arithmetic: &Arithmetic<D, M, S>,
    ) -> (step: ScaleRowStep) where
        D: Fn(u64, u64) -> u64,
        M: Fn(u64, u64) -> u64,
        S: Fn(u64, u64) -> u64,

        requires
            row < old(self).spec_rows(),
            arithmetic.usable(),
        ensures
            step.source_row == row,
            step.factor == factor,
            final(self).spec_rows() == old(self).spec_rows(),
            final(self).spec_cols() == old(self).spec_cols(),
            row_scaled(arithmetic, old(self)@, final(self)@, row as int, factor),
    {
        let cols: usize = self.cols();
        let mut col: usize = 0;
        while col < cols
            invariant
                col <= cols,
                cols == self.spec_cols(),
                row < self.spec_rows(),
                arithmetic.usable(),
                self.spec_rows() == old(self).spec_rows(),
                self.spec_cols() == old(self).spec_cols(),
                forall|r: int| 0 <= r < self@.len() && r != row ==> #[trigger] self@[r] == old(self)@[r],
                forall|c: int|
                    0 <= c < col ==> arithmetic.product(
                        old(self)@[row as int][c],
                        factor,
                        #[trigger] self@[row as int][c],
                    ),
                forall|c: int|
                    col <= c < cols ==> #[trigger] self@[row as int][c] == old(self)@[row as int][c],
            decreases cols - col,
        {
            let scaled: u64 = (arithmetic.multiply)(self.get(row, col), factor);
            self.put(row, col, scaled);
            col += 1;
        }
        ScaleRowStep { source_row: row, factor }
    }

    /// Takes from row `target_row` the multiple of row `row` that clears its
    /// entry in column `row`: with the pivot `p` the entry at `(row, row)`
    /// and `factor` the entry at `(target_row, row)` divided by `p`, every
    /// entry of the target row has `factor` times the entry above or below it
    /// in row `row` taken from it. A pivot that is exactly zero is refused,
    /// and the matrix is then left as it was. Where the two rows differ, row
    /// `row` is left as it was.
    pub fn eliminate<D, M, S>(
        &mut self,
        row: usize,
        target_row: usize,
        arithmetic: &Arithmetic<D, M, S>,
    ) -> (done: Result<EliminateStep, ()>) where
        D: Fn(u64, u64) -> u64,
        M: Fn(u64, u64) -> u64,
        S: Fn(u64, u64) -> u64,

        requires
            row < old(self).spec_rows(),
            row < old(self).spec_cols(),
            target_row < old(self).spec_rows(),
            arithmetic.usable(),
        ensures
            final(self).spec_rows() == old(self).spec_rows(),
            final(self).spec_cols() == old(self).spec_cols(),
            done is Err <==> spec_is_zero(old(self)@[row as int][row as int]),
            done is Err ==> final(self)@ == old(self)@,
            done matches Ok(step) ==> {
                &&& step.source_row == row
                &&& step.target_row == target_row
                &&& row_eliminated(
                    arithmetic,
                    old(self)@,
                    final(self)@,
                    row as int,
                    target_row as int,
                    step.factor,
                )
            },
    {
        let pivot: u64 = self.get(row, row);
        if is_zero(pivot) {
            return Err(());
        }
        let factor: u64 = (arithmetic.divide)(self.get(target_row, row), pivot);
        let cols: usize = self.cols();
        let mut col: usize = 0;
        while col < cols
            invariant
                col <= cols,
                cols == self.spec_cols(),
                row < self.spec_rows(),
                target_row < self.spec_rows(),
                arithmetic.usable(),
                self.spec_rows() == old(self).spec_rows(),
                self.spec_cols() == old(self).spec_cols(),
                forall|r: int|
                    0 <= r < self@.len() && r != target_row ==> #[trigger] self@[r] == old(self)@[r],
                forall|c: int|
                    0 <= c < col ==> arithmetic.reduced(
                        old(self)@[target_row as int][c],
                        factor,
                        old(self)@[row as int][c],
                        #[trigger] self@[target_row as int][c],
                    ),
                forall|c: int|
                    col <= c < cols ==> #[trigger] self@[target_row as int][c] == old(
                        self,
                    )@[target_row as int][c],
            decreases cols - col,
        {
            let reduced: u64 = arithmetic.reduce(
                self.get(target_row, col),
                factor,
                self.get(row, col),
            );
            self.put(target_row, col, reduced);
            col += 1;
        }
        Ok(EliminateStep { source_row: row, target_row, factor })
    }
}

/// Exchanging a row with itself changes nothing.
pub proof fn lemma_swap_same_row(rows: Seq<Seq<u64>>, row: int)
    requires
        0 <= row < rows.len(),
    ensures
        rows_swapped(rows, row, row) == rows,
{
    assert(rows_swapped(rows, row, row) =~= rows);
}

/// Exchanging the same two rows twice restores the matrix.
pub proof fn lemma_swap_twice(rows: Seq<Seq<u64>>, row1: int, row2: int)
    requires
        0 <= row1 < rows.len(),
        0 <= row2 < rows.len(),
    ensures
        rows_swapped(rows_swapped(rows, row1, row2), row1, row2) == rows,
{
    assert(rows_swapped(rows_swapped(rows, row1, row2), row1, row2) =~= rows);
}

/// An elimination between two different rows leaves the pivot row as it was.
pub proof fn lemma_eliminate_keeps_pivot_row<D, M, S>(
    arithmetic: &Arithmetic<D, M, S>,
    before: Seq<Seq<u64>>,
    after: Seq<Seq<u64>>,
    row: int,
    target: int,
    factor: u64,
) where D: Fn(u64, u64) -> u64, M: Fn(u64, u64) -> u64, S: Fn(u64, u64) -> u64
    requires
        0 <= row < before.len(),
        row != target,
        row_eliminated(arithmetic, before, after, row, target, factor),
    ensures
        after[row] == before[row],
{
}

} // verus!
