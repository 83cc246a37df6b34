//! The dense matrix that the engine steps through.
use vstd::prelude::*;
use crate::dense::{self, stored_rows, stored_width, DenseStore};

verus! {

/// A dense matrix of binary64 values, each held by its bit pattern. Its shape
/// is fixed when it is made.
pub struct Matrix {
    store: DenseStore,
}

/// A row of a nested list whose length differs from that of the first row.
#[derive(Clone, Copy, Debug, PartialEq, Eq)]
pub struct RaggedRows {
    /// The first row whose length differs.
    pub row: usize,
    /// The length of the first row of the list.
    pub expected: usize,
    /// The length of the row named by `row`.
    pub found: usize,
}

/// The rows of a nested list, each by its view.
pub open spec fn rows_of(list: Seq<Vec<u64>>) -> Seq<Seq<u64>> {
    Seq::new(list.len(), |r: int| list[r]@)
}

/// The width that a nested list asks for: the length of its first row, and
/// zero where it has no row.
pub open spec fn width_of(list: Seq<Vec<u64>>) -> nat {
    if list.len() > 0 {
        list[0]@.len()
    } else {
        0
    }
}

/// Whether every row of a nested list is as long as the first.
pub open spec fn uniform(list: Seq<Vec<u64>>) -> bool {
    forall|r: int| 0 <= r < list.len() ==> (#[trigger] list[r])@.len() == width_of(list)
}

/// Whether a matrix of this shape can be allocated: its cells, eight bytes
/// each, must not take more than `isize::MAX` bytes.
pub open spec fn allocatable(rows: nat, cols: nat) -> bool {
    rows * cols * 8 <= isize::MAX
}

impl Matrix {
    /// The number of rows.
    pub closed spec fn spec_rows(&self) -> nat {
        stored_rows(self.store).len()
    }

    /// The number of columns.
    pub closed spec fn spec_cols(&self) -> nat {
        stored_width(self.store)
    }

    /// The entry in row `row` and column `col`.
    pub closed spec fn entry(&self, row: int, col: int) -> u64 {
        stored_rows(self.store)[row][col]
    }

    /// The matrix as its rows, each `spec_cols()` long.
    pub open spec fn view(&self) -> Seq<Seq<u64>> {
        Seq::new(
            self.spec_rows(),
            |r: int| Seq::new(self.spec_cols(), |c: int| self.entry(r, c)),
        )
    }

    /// A matrix of the given shape with every entry positive zero.
    pub fn new(rows: usize, cols: usize) -> (matrix: Self)
        requires
            allocatable(rows as nat, cols as nat),
        ensures
            matrix.spec_rows() == rows,
            matrix.spec_cols() == cols,
            matrix@ == Seq::new(rows as nat, |r: int| Seq::new(cols as nat, |c: int| 0u64)),
    {
        let matrix = Matrix { store: dense::zeros(rows, cols) };
        assert(matrix@ =~~= Seq::new(rows as nat, |r: int| Seq::new(cols as nat, |c: int| 0u64)));
        matrix
    }

    /// The matrix whose rows are those of `vec`. A list without rows gives a
    /// matrix without columns. A list whose rows are not all of one length is
    /// refused, with the first row that differs from the first.
    pub fn from_vec(vec: Vec<Vec<u64>>) -> (made: Result<Self, RaggedRows>)
        requires
            allocatable(vec@.len(), width_of(vec@)),
        ensures
            made is Ok <==> uniform(vec@),
            made matches Ok(matrix) ==> {
                &&& matrix@ == rows_of(vec@)
                &&& matrix.spec_rows() == vec@.len()
                &&& matrix.spec_cols() == width_of(vec@)
            },
            made matches Err(ragged) ==> {
                &&& ragged.row < vec@.len()
                &&& ragged.expected == width_of(vec@)
                &&& ragged.found == vec@[ragged.row as int]@.len()
                &&& ragged.found != ragged.expected
                &&& forall|r: int| 0 <= r < ragged.row ==> (#[trigger] vec@[r])@.len() == width_of(vec@)
            },
    {
        let rows: usize = vec.len();
        let cols: usize = if rows > 0 {
            vec[0].len()
        } else {
            0
        };
        let mut store = dense::zeros(rows, cols);
        let mut i: usize = 0;
        while i < rows
            invariant
                rows == vec@.len(),
                cols == width_of(vec@),
                i <= rows,
                stored_rows(store).len() == rows,
                stored_width(store) == cols,
                forall|r: int| 0 <= r < i ==> (#[trigger] vec@[r])@.len() == cols,
                forall|r: int, c: int|
                    0 <= r < i && 0 <= c < cols ==> #[trigger] stored_rows(store)[r][c]
                        == vec@[r]@[c],
            decreases rows - i,
        {
            let row = &vec[i];
            if row.len() != cols {
                return Err(RaggedRows { row: i, expected: cols, found: row.len() });
            }
            let mut j: usize = 0;
            while j < cols
                invariant
                    rows == vec@.len(),
                    i < rows,
                    j <= cols,
                    row@ == vec@[i as int]@,
                    row@.len() == cols,
                    stored_rows(store).len() == rows,
                    stored_width(store) == cols,
                    forall|r: int, c: int|
                        0 <= r < i && 0 <= c < cols ==> #[trigger] stored_rows(store)[r][c]
                            == vec@[r]@[c],
                    forall|c: int|
                        0 <= c < j ==> #[trigger] stored_rows(store)[i as int][c] == row@[c],
                decreases cols - j,
            {
                dense::set(&mut store, i, j, row[j]);
                j += 1;
            }
            i += 1;
        }
        let matrix = Matrix { store };
        assert(matrix@ =~~= rows_of(vec@));
        Ok(matrix)
    }

    /// A matrix of the given shape, each entry drawn from `sample`, column by
    /// column.
    pub fn random<F: Fn() -> u64>(rows: usize, cols: usize, sample: F) -> (matrix: Self)
        requires
            allocatable(rows as nat, cols as nat),
            sample.requires(()),
        ensures
            matrix.spec_rows() == rows,
            matrix.spec_cols() == cols,
            matrix@.len() == rows,
            forall|r: int, c: int|
                0 <= r < rows && 0 <= c < cols ==> sample.ensures((), #[trigger] matrix@[r][c]),
    {
        let mut store = dense::zeros(rows, cols);
        let mut j: usize = 0;
        while j < cols
            invariant
                j <= cols,
                sample.requires(()),
                stored_rows(store).len() == rows,
                stored_width(store) == cols,
                forall|r: int, c: int|
                    0 <= r < rows && 0 <= c < j ==> sample.ensures(
                        (),
                        #[trigger] stored_rows(store)[r][c],
                    ),
            decreases cols - j,
        {
            let mut i: usize = 0;
            while i < rows
                invariant
                    j < cols,
                    i <= rows,
                    sample.requires(()),
                    stored_rows(store).len() == rows,
                    stored_width(store) == cols,
                    forall|r: int, c: int|
                        0 <= r < rows && 0 <= c < j ==> sample.ensures(
                            (),
                            #[trigger] stored_rows(store)[r][c],
                        ),
                    forall|r: int|
                        0 <= r < i ==> sample.ensures(
                            (),
                            #[trigger] stored_rows(store)[r][j as int],
                        ),
                decreases rows - i,
            {
                let drawn: u64 = sample();
                dense::set(&mut store, i, j, drawn);
                i += 1;
            }
            j += 1;
        }
        Matrix { store }
    }

    /// The number of columns.
    pub fn cols(&self) -> (cols: usize)
        ensures
            cols == self.spec_cols(),
    {
        dense::width(&self.store)
    }

    /// The number of rows.
    pub fn rows(&self) -> (rows: usize)
        ensures
            rows == self.spec_rows(),
            rows == self@.len(),
    {
        dense::height(&self.store)
    }

    /// The entry in row `row` and column `col`.
    pub fn get(&self, row: usize, col: usize) -> (value: u64)
        requires
            row < self.spec_rows(),
            col < self.spec_cols(),
        ensures
            value == self@[row as int][col as int],
    {
        dense::get(&self.store, row, col)
    }

    /// Overwrites one entry. Row operations are built from it.
    pub(crate) fn put(&mut self, row: usize, col: usize, value: u64)
        requires
            row < old(self).spec_rows(),
            col < old(self).spec_cols(),
        ensures
            final(self).spec_rows() == old(self).spec_rows(),
            final(self).spec_cols() == old(self).spec_cols(),
            final(self)@ == old(self)@.update(
                row as int,
                old(self)@[row as int].update(col as int, value),
            ),
    {
        dense::set(&mut self.store, row, col, value);
        assert(self@ =~~= old(self)@.update(
            row as int,
            old(self)@[row as int].update(col as int, value),
        ));
    }

    /// Exchanges two rows of the store.
    pub(crate) fn exchange(&mut self, row1: usize, row2: usize)
        requires
            row1 < old(self).spec_rows(),
            row2 < old(self).spec_rows(),
        ensures
            final(self).spec_rows() == old(self).spec_rows(),
            final(self).spec_cols() == old(self).spec_cols(),
            final(self)@ == old(self)@.update(row1 as int, old(self)@[row2 as int]).update(
                row2 as int,
                old(self)@[row1 as int],
            ),
    {
        dense::swap_rows(&mut self.store, row1, row2);
        assert(self@ =~~= old(self)@.update(row1 as int, old(self)@[row2 as int]).update(
            row2 as int,
            old(self)@[row1 as int],
        ));
    }

    /// Every row of the view is `spec_cols()` long, and there are
    /// `spec_rows()` of them.
    pub proof fn lemma_shape(&self)
        ensures
            self@.len() == self.spec_rows(),
            forall|r: int| 0 <= r < self@.len() ==> (#[trigger] self@[r]).len() == self.spec_cols(),
    {
    }
}

} // verus!
