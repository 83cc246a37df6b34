//! Gaussian elimination with partial pivoting, one row operation at a time.
//!
//! On the way down each column is dealt with in two stages. First the rows
//! from the diagonal downwards are scanned for the greatest entry of the
//! column, and the row that holds it changes places with the row on the
//! diagonal. Then that row clears the column in every row below it, one
//! elimination per call.
//!
//! On the way back up, which starts when the way down is finished, each row
//! from the last diagonal entry upwards is first divided by its pivot and
//! then clears its column in every row above it, again one row operation per
//! call. When the last row is done the solution of an augmented system stands
//! in the last column.
use vstd::prelude::*;
use crate::algorithms::common::{Algorithm, AlgorithmMetadata, ZeroPivot};
use crate::algorithms::counting::{
    lemma_pairs_fit,
    lemma_pairs_monotone,
    lemma_pairs_total,
    lemma_squares_fit,
    lemma_triangle_closed,
    lemma_triangle_fit,
    lemma_triangle_monotone,
    pairs_below,
    squares_below,
    triangle,
};
use crate::arithmetic::Arithmetic;
use crate::binary64::{greater, is_zero, spec_greater, spec_is_nan, spec_is_zero, ONE};
use crate::matrix::Matrix;
use crate::steps::{row_eliminated, row_scaled, rows_swapped, Step, SwapRowsStep};

verus! {

/// The most rows a matrix may have for the tallies to fit their 32 bits.
pub const MAX_ROWS: usize = 2344;

/// What the way down does next in the column it is at.
#[derive(Clone, Copy, Debug, PartialEq, Eq)]
pub enum Stage {
    /// Find the pivot of the column and bring it onto the diagonal.
    PivotSwap,
    /// Clear the column below the diagonal.
    RowElimination,
}

/// Where an elimination stands.
pub struct GaussState {
    /// The rows of the matrix.
    pub matrix: Seq<Seq<u64>>,
    /// The number of columns of the matrix.
    pub cols: nat,
    /// The tallies so far.
    pub metadata: AlgorithmMetadata,
    /// The row, and column, that the way down is at; the number of rows when
    /// the way down is finished.
    pub processing_row: usize,
    /// The row to be cleared next, once the first one of a column has been
    /// chosen.
    pub eliminating_row: Option<usize>,
    /// The stage of the way down.
    pub stage: Stage,
    /// The rows that the way back up has still to deal with: it is at row
    /// `solving_row - 1`, and finished when this is zero.
    pub solving_row: usize,
    /// The row above to be cleared next on the way back up, once the row it
    /// is at has been divided by its pivot.
    pub clearing_row: Option<usize>,
}

/// The row that a pivot scan settles on: it starts with row `first` and goes
/// through the rows up to `end`, moving on to a row only where its entry in
/// column `col` is greater than that of the row it holds.
pub open spec fn best_row(matrix: Seq<Seq<u64>>, col: int, first: int, end: int) -> int
    decreases end - first,
{
    if end <= first + 1 {
        first
    } else {
        let best = best_row(matrix, col, first, end - 1);
        if spec_greater(matrix[end - 1][col], matrix[best][col]) {
            end - 1
        } else {
            best
        }
    }
}

impl GaussState {
    /// The number of rows of the matrix.
    pub open spec fn rows(self) -> nat {
        self.matrix.len()
    }

    /// The number of diagonal entries of the matrix.
    pub open spec fn diagonal(self) -> nat {
        if self.rows() <= self.cols {
            self.rows()
        } else {
            self.cols
        }
    }

    /// Whether the way down is finished.
    pub open spec fn exhausted(self) -> bool {
        self.processing_row >= self.rows()
    }

    /// Whether the way back up is finished too.
    pub open spec fn solved(self) -> bool {
        self.exhausted() && self.solving_row == 0
    }

    /// The pivot scans made so far.
    pub open spec fn scans_done(self) -> nat {
        if self.stage is RowElimination {
            (self.processing_row + 1) as nat
        } else if self.processing_row == self.rows() && self.rows() > 0 {
            (self.rows() - 1) as nat
        } else {
            self.processing_row as nat
        }
    }

    /// The eliminations made so far in the column that the way down is at.
    pub open spec fn cleared_below(self) -> nat {
        match self.eliminating_row {
            Some(row) => (row - self.processing_row - 1) as nat,
            None => 0,
        }
    }

    /// The row operations made so far for the row that the way back up is at.
    pub open spec fn cleared_above(self) -> nat {
        match self.clearing_row {
            Some(row) => (self.solving_row - 1 - row) as nat,
            None => 0,
        }
    }

    /// Whether the tallies are what the place of the elimination says they
    /// must be.
    pub open spec fn tallied(self) -> bool {
        let rows = self.rows();
        let row = self.processing_row as nat;
        &&& self.metadata.comparisons == pairs_below(rows, self.scans_done())
        &&& self.metadata.sets == self.scans_done() + squares_below(rows, row)
            + self.cleared_below() * (rows - 1 - row)
        &&& self.metadata.elementary_operations == pairs_below(rows, row) + self.cleared_below()
        &&& self.metadata.back_substitution_operations + triangle(self.solving_row as nat)
            == triangle(self.diagonal()) + self.cleared_above()
    }

    /// What holds of an elimination between any two calls.
    pub open spec fn well_formed(self) -> bool {
        &&& forall|r: int| 0 <= r < self.rows() ==> (#[trigger] self.matrix[r]).len() == self.cols
        &&& self.rows() <= self.cols + 1
        &&& self.rows() <= MAX_ROWS
        &&& self.processing_row <= self.rows()
        &&& match self.stage {
            Stage::PivotSwap => self.eliminating_row is None,
            Stage::RowElimination => {
                &&& self.processing_row + 1 < self.rows()
                &&& match self.eliminating_row {
                    Some(row) => self.processing_row < row < self.rows(),
                    None => true,
                }
            },
        }
        &&& self.solving_row <= self.diagonal()
        &&& !self.exhausted() ==> self.solving_row == self.diagonal() && self.clearing_row is None
        &&& match self.clearing_row {
            Some(row) => row + 1 < self.solving_row,
            None => true,
        }
        &&& self.tallied()
    }

    /// The state in which an elimination over `matrix` starts.
    pub open spec fn initial(matrix: Seq<Seq<u64>>, cols: nat) -> Self {
        GaussState {
            matrix,
            cols,
            metadata: AlgorithmMetadata::zeroed(),
            processing_row: 0,
            eliminating_row: None,
            stage: Stage::PivotSwap,
            solving_row: (if matrix.len() <= cols {
                matrix.len()
            } else {
                cols
            }) as usize,
            clearing_row: None,
        }
    }

    /// The forward steps that are still to come at most: the eliminations
    /// that are still to be made, and a swap for each column that is still to
    /// be scanned.
    pub open spec fn work_left(self) -> int {
        if self.rows() == 0 {
            0
        } else {
            pairs_below(self.rows(), self.rows()) - self.metadata.elementary_operations
                + self.rows() - 1 - self.scans_done()
        }
    }

    /// Whether `after` differs from `self` in nothing but the matrix, the
    /// tallies and the place on the way down.
    pub open spec fn same_way_back(self, after: Self) -> bool {
        &&& after.cols == self.cols
        &&& after.solving_row == self.solving_row
        &&& after.clearing_row == self.clearing_row
    }

    /// Whether `after` differs from `self` in nothing but the matrix, the
    /// tallies and the place on the way back up.
    pub open spec fn same_way_down(self, after: Self) -> bool {
        &&& after.cols == self.cols
        &&& after.processing_row == self.processing_row
        &&& after.eliminating_row == self.eliminating_row
        &&& after.stage == self.stage
    }
}

/// What the clearing stage of the way down does from `before`: it clears the
/// next row below the diagonal and moves on, or stops at a pivot that is
/// exactly zero, having changed nothing but the choice of the row to clear.
pub open spec fn clears_next<D, M, S>(
    arithmetic: &Arithmetic<D, M, S>,
    before: GaussState,
    after: GaussState,
    step: Result<Option<Step>, ZeroPivot>,
) -> bool where D: Fn(u64, u64) -> u64, M: Fn(u64, u64) -> u64, S: Fn(u64, u64) -> u64 {
    let rows = before.rows();
    let row = before.processing_row;
    let target = match before.eliminating_row {
        Some(chosen) => chosen,
        None => (row + 1) as usize,
    };
    let last = target + 1 >= rows;
    if spec_is_zero(before.matrix[row as int][row as int]) {
        &&& step == Err::<Option<Step>, ZeroPivot>(ZeroPivot { row })
        &&& after == (GaussState { eliminating_row: Some(target), ..before })
    } else {
        &&& before.same_way_back(after)
        &&& step matches Ok(Some(Step::Eliminate(done)))
        &&& done.source_row == row
        &&& done.target_row == target
        &&& row_eliminated(arithmetic, before.matrix, after.matrix, row as int, target as int, done.factor)
        &&& after.metadata.grown_from(before.metadata, 0, rows - row - 1, 1, 0)
        &&& after.processing_row == (if last {
            row + 1
        } else {
            row as int
        })
        &&& after.eliminating_row == (if last {
            None
        } else {
            Some((target + 1) as usize)
        })
        &&& after.stage == (if last {
            Stage::PivotSwap
        } else {
            Stage::RowElimination
        })
    }
}

/// What one call of `forward` does from `before`.
///
/// When the way down is finished it does nothing and returns `None`. At the
/// last row, which has no row below it, it finishes the way down and returns
/// `None`. Otherwise, at the pivot stage, it scans the column, counting one
/// comparison for each row below the diagonal and one assignment, and
/// exchanges the row on the diagonal with the row that the scan settled on;
/// where that is the row on the diagonal itself, no step is made of it and
/// the call goes on to clear the first row below. At the clearing stage it
/// clears the next row.
pub open spec fn forward_step<D, M, S>(
    arithmetic: &Arithmetic<D, M, S>,
    before: GaussState,
    after: GaussState,
    step: Result<Option<Step>, ZeroPivot>,
) -> bool where D: Fn(u64, u64) -> u64, M: Fn(u64, u64) -> u64, S: Fn(u64, u64) -> u64 {
    let rows = before.rows();
    let row = before.processing_row;
    if row >= rows {
        after == before && step == Ok::<Option<Step>, ZeroPivot>(None)
    } else if before.stage is RowElimination {
        clears_next(arithmetic, before, after, step)
    } else if row == rows - 1 {
        &&& after == (GaussState { processing_row: (row + 1) as usize, ..before })
        &&& step == Ok::<Option<Step>, ZeroPivot>(None)
    } else {
        let pivot = best_row(before.matrix, row as int, row as int, rows as int);
        let scanned = GaussState {
            metadata: AlgorithmMetadata {
                comparisons: (before.metadata.comparisons + rows - row - 1) as u32,
                sets: (before.metadata.sets + 1) as u32,
                ..before.metadata
            },
            stage: Stage::RowElimination,
            ..before
        };
        if pivot != row {
            &&& after == (GaussState {
                matrix: rows_swapped(before.matrix, row as int, pivot),
                ..scanned
            })
            &&& step == Ok::<Option<Step>, ZeroPivot>(
                Some(Step::SwapRows(SwapRowsStep { source_row: row, target_row: pivot as usize })),
            )
        } else {
            clears_next(arithmetic, scanned, after, step)
        }
    }
}

/// What one call of `back` does from `before`.
///
/// Before the way down is finished, and after the way back up is, it does
/// nothing and returns `None`. Otherwise it is at the row above
/// `solving_row`. A pivot that is exactly zero stops it, with nothing
/// changed. If the row has not been dealt with yet, it is multiplied by one
/// divided by its pivot. After that, the rows above are cleared of the
/// pivot's column, from the one just above to the first. Every row operation
/// counts once.
pub open spec fn back_step<D, M, S>(
    arithmetic: &Arithmetic<D, M, S>,
    before: GaussState,
    after: GaussState,
    step: Result<Option<Step>, ZeroPivot>,
) -> bool where D: Fn(u64, u64) -> u64, M: Fn(u64, u64) -> u64, S: Fn(u64, u64) -> u64 {
    if !before.exhausted() || before.solving_row == 0 {
        after == before && step == Ok::<Option<Step>, ZeroPivot>(None)
    } else {
        let row = (before.solving_row - 1) as usize;
        if spec_is_zero(before.matrix[row as int][row as int]) {
            after == before && step == Err::<Option<Step>, ZeroPivot>(ZeroPivot { row })
        } else {
            &&& before.same_way_down(after)
            &&& after.metadata.grown_from(before.metadata, 0, 0, 0, 1)
            &&& match before.clearing_row {
                None => {
                    &&& step matches Ok(Some(Step::ScaleRow(done)))
                    &&& done.source_row == row
                    &&& arithmetic.quotient(ONE, before.matrix[row as int][row as int], done.factor)
                    &&& row_scaled(arithmetic, before.matrix, after.matrix, row as int, done.factor)
                    &&& after.solving_row == (if row == 0 {
                        0
                    } else {
                        before.solving_row
                    })
                    &&& after.clearing_row == (if row == 0 {
                        None
                    } else {
                        Some((row - 1) as usize)
                    })
                },
                Some(target) => {
                    &&& step matches Ok(Some(Step::Eliminate(done)))
                    &&& done.source_row == row
                    &&& done.target_row == target
                    &&& row_eliminated(
                        arithmetic,
                        before.matrix,
                        after.matrix,
                        row as int,
                        target as int,
                        done.factor,
                    )
                    &&& after.solving_row == (if target == 0 {
                        row
                    } else {
                        before.solving_row
                    })
                    &&& after.clearing_row == (if target == 0 {
                        None
                    } else {
                        Some((target - 1) as usize)
                    })
                },
            }
        }
    }
}

/// The last column of `matrix`, top to bottom.
pub open spec fn last_column(matrix: Seq<Seq<u64>>, cols: nat) -> Seq<u64> {
    Seq::new(matrix.len(), |r: int| matrix[r][cols - 1])
}

/// Gaussian elimination with partial pivoting over a matrix that it owns.
pub struct GaussAlgorithm {
    metadata: AlgorithmMetadata,
    matrix: Matrix,
    processing_row: usize,
    eliminating_row: Option<usize>,
    stage: Stage,
    solving_row: usize,
    clearing_row: Option<usize>,
}

impl GaussAlgorithm {
    /// Where the elimination stands.
    pub closed spec fn view(&self) -> GaussState {
        GaussState {
            matrix: self.matrix@,
            cols: self.matrix.spec_cols(),
            metadata: self.metadata,
            processing_row: self.processing_row,
            eliminating_row: self.eliminating_row,
            stage: self.stage,
            solving_row: self.solving_row,
            clearing_row: self.clearing_row,
        }
    }

    /// The matrix as it stands.
    pub fn matrix(&self) -> (matrix: &Matrix)
        ensures
            matrix@ == self@.matrix,
            matrix.spec_cols() == self@.cols,
            matrix.spec_rows() == self@.rows(),
    {
        &self.matrix
    }

    /// Scans the column of the row that the way down is at, from the
    /// diagonal downwards, for the row to pivot on.
    fn find_pivot(&self) -> (pivot: usize)
        requires
            self@.well_formed(),
            self.processing_row + 1 < self@.rows(),
        ensures
            pivot == best_row(
                self@.matrix,
                self.processing_row as int,
                self.processing_row as int,
                self@.rows() as int,
            ),
            self.processing_row <= pivot < self@.rows(),
    {
        let rows: usize = self.matrix.rows();
        let col: usize = self.processing_row;
        let mut pivot: usize = col;
        let mut row: usize = col + 1;
        while row < rows
            invariant
                rows == self.matrix.spec_rows(),
                col == self.processing_row,
                col < self.matrix.spec_cols(),
                col < row <= rows,
                col <= pivot < row,
                pivot == best_row(self.matrix@, col as int, col as int, row as int),
            decreases rows - row,
        {
            if greater(self.matrix.get(row, col), self.matrix.get(pivot, col)) {
                pivot = row;
            }
            row += 1;
        }
        pivot
    }

    /// The clearing stage of the way down: clears the next row below the
    /// diagonal.
    fn clear_next<D, M, S>(&mut self, arithmetic: &Arithmetic<D, M, S>) -> (step: Result<
        Option<Step>,
        ZeroPivot,
    >) where D: Fn(u64, u64) -> u64, M: Fn(u64, u64) -> u64, S: Fn(u64, u64) -> u64
        requires
            old(self)@.well_formed(),
            old(self)@.stage is RowElimination,
            !old(self)@.exhausted(),
            arithmetic.usable(),
        ensures
            final(self)@.well_formed(),
            clears_next(arithmetic, old(self)@, final(self)@, step),
    {
        let rows: usize = self.matrix.rows();
        let row: usize = self.processing_row;
        let target: usize = match self.eliminating_row {
            Some(chosen) => chosen,
            None => row + 1,
        };
        self.eliminating_row = Some(target);
        match self.matrix.eliminate(row, target, arithmetic) {
            Err(_) => Err(ZeroPivot { row }),
            Ok(done) => {
                proof {
                    lemma_pairs_fit(rows as nat, row as nat);
                    lemma_squares_fit(rows as nat, (row + 1) as nat);
                    lemma_cleared(old(self)@, (rows - 1 - row) as int);
                }
                self.metadata.elementary_operations += 1;
                self.metadata.sets += (rows - row - 1) as u32;
                if target + 1 >= rows {
                    self.processing_row += 1;
                    self.eliminating_row = None;
                    self.stage = Stage::PivotSwap;
                } else {
                    self.eliminating_row = Some(target + 1);
                }
                Ok(Some(Step::Eliminate(done)))
            },
        }
    }
}

impl Algorithm for GaussAlgorithm {
    /// A matrix with at most one row more than it has columns, so that every
    /// column that is cleared exists, and with no more rows than the tallies
    /// can count.
    open spec fn accepts(matrix: &Matrix) -> bool {
        &&& matrix.spec_rows() <= matrix.spec_cols() + 1
        &&& matrix.spec_rows() <= MAX_ROWS
    }

    open spec fn well_formed(&self) -> bool {
        self@.well_formed()
    }

    open spec fn counters(&self) -> AlgorithmMetadata {
        self@.metadata
    }

    fn new(matrix: Matrix) -> (algorithm: Self)
        ensures
            algorithm@ == GaussState::initial(matrix@, matrix.spec_cols()),
    {
        let rows: usize = matrix.rows();
        let cols: usize = matrix.cols();
        let diagonal: usize = if rows <= cols {
            rows
        } else {
            cols
        };
        Self {
            metadata: AlgorithmMetadata::new(),
            matrix,
            processing_row: 0,
            eliminating_row: None,
            stage: Stage::PivotSwap,
            solving_row: diagonal,
            clearing_row: None,
        }
    }

    fn metadata(&self) -> (metadata: &AlgorithmMetadata) {
        &self.metadata
    }

    fn forward<D, M, S>(&mut self, arithmetic: &Arithmetic<D, M, S>) -> (step: Result<
        Option<Step>,
        ZeroPivot,
    >) where D: Fn(u64, u64) -> u64, M: Fn(u64, u64) -> u64, S: Fn(u64, u64) -> u64
        ensures
            forward_step(arithmetic, old(self)@, final(self)@, step),
    {
        let rows: usize = self.matrix.rows();
        let row: usize = self.processing_row;
        if row >= rows {
            return Ok(None);
        }
        match self.stage {
            Stage::RowElimination => {},
            Stage::PivotSwap => {
                if row == rows - 1 {
                    self.processing_row += 1;
                    return Ok(None);
                }
                let pivot: usize = self.find_pivot();
                proof {
                    lemma_pairs_fit(rows as nat, (row + 1) as nat);
                    lemma_squares_fit(rows as nat, row as nat);
                }
                self.metadata.comparisons += (rows - row - 1) as u32;
                self.metadata.sets += 1;
                self.stage = Stage::RowElimination;
                if pivot != row {
                    let swapped = self.matrix.swap_rows(row, pivot);
                    return Ok(Some(Step::SwapRows(swapped)));
                }
            },
        }
        self.clear_next(arithmetic)
    }

    fn back<D, M, S>(&mut self, arithmetic: &Arithmetic<D, M, S>) -> (step: Result<
        Option<Step>,
        ZeroPivot,
    >) where D: Fn(u64, u64) -> u64, M: Fn(u64, u64) -> u64, S: Fn(u64, u64) -> u64
        ensures
            back_step(arithmetic, old(self)@, final(self)@, step),
    {
        if self.processing_row < self.matrix.rows() || self.solving_row == 0 {
            return Ok(None);
        }
        let row: usize = self.solving_row - 1;
        let pivot: u64 = self.matrix.get(row, row);
        if is_zero(pivot) {
            return Err(ZeroPivot { row });
        }
        proof {
            lemma_triangle_fit(self@.diagonal());
            lemma_triangle_monotone(self.solving_row as nat, self@.diagonal());
        }
        match self.clearing_row {
            None => {
                let factor: u64 = (arithmetic.divide)(ONE, pivot);
                let done = self.matrix.scale_row(row, factor, arithmetic);
                self.metadata.back_substitution_operations += 1;
                if row == 0 {
                    self.solving_row = 0;
                } else {
                    self.clearing_row = Some(row - 1);
                }
                Ok(Some(Step::ScaleRow(done)))
            },
            Some(target) => {
                match self.matrix.eliminate(row, target, arithmetic) {
                    Err(_) => Err(ZeroPivot { row }),
                    Ok(done) => {
                        self.metadata.back_substitution_operations += 1;
                        if target == 0 {
                            self.solving_row = row;
                            self.clearing_row = None;
                        } else {
                            self.clearing_row = Some(target - 1);
                        }
                        Ok(Some(Step::Eliminate(done)))
                    },
                }
            },
        }
    }

    /// The last column of the matrix, once both passes are finished over a
    /// matrix with one column more than it has rows: the solution of the
    /// system that the matrix stood for. `None` before that, and for a matrix
    /// of any other shape.
    fn back_substitute(&self) -> (solution: Option<Vec<u64>>)
        ensures
            solution is Some <==> self@.solved() && self@.cols == self@.rows() + 1,
            solution matches Some(values) ==> values@ == last_column(self@.matrix, self@.cols),
    {
        let rows: usize = self.matrix.rows();
        let cols: usize = self.matrix.cols();
        if self.processing_row < rows || self.solving_row != 0 || rows >= cols || cols - rows
            != 1 {
            return None;
        }
        let mut values: Vec<u64> = Vec::new();
        let mut row: usize = 0;
        while row < rows
            invariant
                rows == self.matrix.spec_rows(),
                cols == self.matrix.spec_cols(),
                cols == rows + 1,
                row <= rows,
                values@.len() == row,
                forall|r: int| 0 <= r < row ==> #[trigger] values@[r] == self.matrix@[r][cols - 1],
            decreases rows - row,
        {
            values.push(self.matrix.get(row, cols - 1));
            row += 1;
        }
        assert(values@ =~= last_column(self@.matrix, self@.cols));
        Some(values)
    }
}

/// A pivot scan settles on one of the rows that it went through.
pub proof fn lemma_best_row_in_range(matrix: Seq<Seq<u64>>, col: int, first: int, end: int)
    requires
        first < end,
    ensures
        first <= best_row(matrix, col, first, end) < end,
    decreases end - first,
{
    if end > first + 1 {
        lemma_best_row_in_range(matrix, col, first, end - 1);
    }
}

/// Where no entry that it looks at is a NaN, a pivot scan settles on the
/// first row that holds the greatest entry: no row that it went through holds
/// a greater one, and every row before the one it settled on holds a smaller
/// one. Entries are compared as signed values, not by magnitude.
pub proof fn lemma_best_row_is_first_greatest(
    matrix: Seq<Seq<u64>>,
    col: int,
    first: int,
    end: int,
)
    requires
        first < end,
        forall|r: int| first <= r < end ==> !spec_is_nan(#[trigger] matrix[r][col]),
    ensures
        forall|r: int|
            first <= r < end ==> !spec_greater(
                #[trigger] matrix[r][col],
                matrix[best_row(matrix, col, first, end)][col],
            ),
        forall|r: int|
            first <= r < best_row(matrix, col, first, end) ==> spec_greater(
                matrix[best_row(matrix, col, first, end)][col],
                #[trigger] matrix[r][col],
            ),
    decreases end - first,
{
    if end > first + 1 {
        lemma_best_row_in_range(matrix, col, first, end - 1);
        lemma_best_row_is_first_greatest(matrix, col, first, end - 1);
    }
}

/// The state in which an elimination starts is well formed.
pub proof fn lemma_initial_well_formed(matrix: Seq<Seq<u64>>, cols: nat)
    requires
        forall|r: int| 0 <= r < matrix.len() ==> (#[trigger] matrix[r]).len() == cols,
        matrix.len() <= cols + 1,
        matrix.len() <= MAX_ROWS,
    ensures
        GaussState::initial(matrix, cols).well_formed(),
{
}

/// A call of `forward` leaves a well-formed state well formed.
pub proof fn lemma_forward_keeps_well_formed<D, M, S>(
    arithmetic: &Arithmetic<D, M, S>,
    before: GaussState,
    after: GaussState,
    step: Result<Option<Step>, ZeroPivot>,
) where D: Fn(u64, u64) -> u64, M: Fn(u64, u64) -> u64, S: Fn(u64, u64) -> u64
    requires
        before.well_formed(),
        forward_step(arithmetic, before, after, step),
    ensures
        after.well_formed(),
{
    let rows = before.rows();
    let row = before.processing_row as nat;
    if row < rows {
        lemma_pairs_fit(rows, row + 1);
        lemma_squares_fit(rows, row);
        let gap = (rows - 1 - row) as int;
        if before.stage is RowElimination {
            lemma_cleared(before, gap);
        } else if row < rows - 1 {
            let pivot = best_row(before.matrix, row as int, row as int, rows as int);
            lemma_best_row_in_range(before.matrix, row as int, row as int, rows as int);
            if pivot == row {
                let scanned = GaussState {
                    metadata: AlgorithmMetadata {
                        comparisons: (before.metadata.comparisons + rows - row - 1) as u32,
                        sets: (before.metadata.sets + 1) as u32,
                        ..before.metadata
                    },
                    stage: Stage::RowElimination,
                    ..before
                };
                assert(scanned.well_formed());
                lemma_cleared(scanned, gap);
            }
        }
    }
}

/// The sums behind the tally of assignments, before and after one more row
/// of a column is cleared.
proof fn lemma_cleared(before: GaussState, gap: int)
    requires
        before.well_formed(),
        before.stage is RowElimination,
        gap == before.rows() - 1 - before.processing_row,
    ensures
        before.cleared_below() + 1 <= gap,
        (before.cleared_below() + 1) * gap == before.cleared_below() * gap + gap,
        before.cleared_below() * gap + gap <= gap * gap,
{
    let cleared = before.cleared_below() as int;
    assert((cleared + 1) * gap == cleared * gap + gap) by (nonlinear_arith);
    assert((cleared + 1) * gap <= gap * gap) by (nonlinear_arith)
        requires
            0 <= cleared + 1 <= gap,
    ;
}

/// A call of `forward` takes the way down through the rows in order: it stays
/// at the row it is at or moves on to the next, and never goes back. It makes
/// an elimination exactly when it returns one, and at most one. The steps
/// that are still to come grow fewer with every step that is returned, and
/// never more.
pub proof fn lemma_forward_advances<D, M, S>(
    arithmetic: &Arithmetic<D, M, S>,
    before: GaussState,
    after: GaussState,
    step: Result<Option<Step>, ZeroPivot>,
) where D: Fn(u64, u64) -> u64, M: Fn(u64, u64) -> u64, S: Fn(u64, u64) -> u64
    requires
        before.well_formed(),
        forward_step(arithmetic, before, after, step),
    ensures
        after.processing_row == before.processing_row || after.processing_row
            == before.processing_row + 1,
        after.rows() == before.rows(),
        after.metadata.elementary_operations == before.metadata.elementary_operations + (if step matches Ok(
            Some(Step::Eliminate(_)),
        ) {
            1int
        } else {
            0int
        }),
        after.work_left() <= before.work_left(),
        step matches Ok(Some(_)) ==> after.work_left() < before.work_left(),
        0 <= after.work_left(),
{
    lemma_forward_keeps_well_formed(arithmetic, before, after, step);
    lemma_work_left_bounded(after);
    let rows = before.rows();
    let row = before.processing_row as nat;
    if row < rows {
        lemma_pairs_fit(rows, row + 1);
        lemma_squares_fit(rows, row);
    }
}

/// The steps still to come are never fewer than none.
pub proof fn lemma_work_left_bounded(state: GaussState)
    requires
        state.well_formed(),
    ensures
        0 <= state.work_left(),
{
    let rows = state.rows();
    let row = state.processing_row as nat;
    if state.stage is RowElimination {
        lemma_pairs_monotone(rows, row + 1, rows);
    } else {
        lemma_pairs_monotone(rows, row, rows);
    }
}

/// When the way down is finished, every row below the diagonal has been
/// cleared once, whatever rows changed places on the way: there have been
/// `rows * (rows - 1) / 2` eliminations and as many comparisons, and no step
/// is still to come.
pub proof fn lemma_exhausted_tally(state: GaussState)
    requires
        state.well_formed(),
        state.exhausted(),
    ensures
        2 * state.metadata.elementary_operations == state.rows() * (state.rows() - 1),
        2 * state.metadata.comparisons == state.rows() * (state.rows() - 1),
        state.metadata.sets == squares_below(state.rows(), state.rows()) + state.scans_done(),
        state.work_left() == 0,
{
    let rows = state.rows();
    lemma_pairs_total(rows);
    if rows > 0 {
        assert(pairs_below(rows, rows) == pairs_below(rows, (rows - 1) as nat) + (rows - rows));
    }
}

/// A finished way down does nothing more: `forward` returns `None` and
/// leaves the state as it is, however often it is called.
pub proof fn lemma_forward_exhausted<D, M, S>(
    arithmetic: &Arithmetic<D, M, S>,
    before: GaussState,
    after: GaussState,
    step: Result<Option<Step>, ZeroPivot>,
) where D: Fn(u64, u64) -> u64, M: Fn(u64, u64) -> u64, S: Fn(u64, u64) -> u64
    requires
        before.exhausted(),
        forward_step(arithmetic, before, after, step),
    ensures
        after == before,
        step == Ok::<Option<Step>, ZeroPivot>(None),
{
}

/// No call of `forward` or of `back` lowers a tally.
pub proof fn lemma_tallies_never_fall<D, M, S>(
    arithmetic: &Arithmetic<D, M, S>,
    before: GaussState,
    after: GaussState,
    step: Result<Option<Step>, ZeroPivot>,
) where D: Fn(u64, u64) -> u64, M: Fn(u64, u64) -> u64, S: Fn(u64, u64) -> u64
    requires
        before.well_formed(),
        forward_step(arithmetic, before, after, step) || back_step(arithmetic, before, after, step),
    ensures
        after.metadata.at_least(before.metadata),
{
    if forward_step(arithmetic, before, after, step) {
        lemma_forward_keeps_well_formed(arithmetic, before, after, step);
        let rows = before.rows();
        let row = before.processing_row as nat;
        if row < rows {
            lemma_pairs_fit(rows, row + 1);
            lemma_squares_fit(rows, row);
        }
    }
}

/// A call of `back` leaves a well-formed state well formed.
pub proof fn lemma_back_keeps_well_formed<D, M, S>(
    arithmetic: &Arithmetic<D, M, S>,
    before: GaussState,
    after: GaussState,
    step: Result<Option<Step>, ZeroPivot>,
) where D: Fn(u64, u64) -> u64, M: Fn(u64, u64) -> u64, S: Fn(u64, u64) -> u64
    requires
        before.well_formed(),
        back_step(arithmetic, before, after, step),
    ensures
        after.well_formed(),
{
}

/// When the way back up is finished, every diagonal entry has been divided
/// out once and every row above a diagonal entry has been cleared once:
/// `n * (n + 1) / 2` row operations for `n` diagonal entries.
pub proof fn lemma_solved_tally(state: GaussState)
    requires
        state.well_formed(),
        state.solved(),
    ensures
        2 * state.metadata.back_substitution_operations == state.diagonal() * (state.diagonal()
            + 1),
{
    lemma_triangle_closed(state.diagonal());
}

} // verus!
