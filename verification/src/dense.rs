//! Dense storage for the matrix, kept in an `nalgebra::DMatrix<u64>`.
//!
//! Nothing in this file is proved: each function states what the matrix
//! library does, and the rest of the crate is verified against these
//! statements.
use vstd::prelude::*;

verus! {

/// A dense two-dimensional array of `u64`, held by `nalgebra::DMatrix`.
#[verifier::external_body]
pub struct DenseStore {
    cells: nalgebra::DMatrix<u64>,
}

/// The rows of a store, first to last: `stored_rows(s)[r][c]` is the cell in
/// row `r` and column `c`.
pub uninterp spec fn stored_rows(store: DenseStore) -> Seq<Seq<u64>>;

/// The number of columns of a store. It is a property of the store and not of
/// its rows, because a store without rows still has a width.
pub uninterp spec fn stored_width(store: DenseStore) -> nat;

/// `DMatrix::zeros`: a store of the given shape with every cell zero. The
/// library allocates `rows * cols` cells at once, which panics when their
/// bytes exceed `isize::MAX`.
#[verifier::external_body]
pub(crate) fn zeros(rows: usize, cols: usize) -> (store: DenseStore)
    requires
        rows * cols * 8 <= isize::MAX,
    ensures
        stored_rows(store).len() == rows,
        stored_width(store) == cols,
        forall|r: int, c: int|
            0 <= r < rows && 0 <= c < cols ==> #[trigger] stored_rows(store)[r][c] == 0,
{
    DenseStore { cells: nalgebra::DMatrix::zeros(rows, cols) }
}

/// `Matrix::nrows`: the number of rows.
#[verifier::external_body]
pub(crate) fn height(store: &DenseStore) -> (rows: usize)
    ensures
        rows == stored_rows(*store).len(),
{
    store.cells.nrows()
}

/// `Matrix::ncols`: the number of columns.
#[verifier::external_body]
pub(crate) fn width(store: &DenseStore) -> (cols: usize)
    ensures
        cols == stored_width(*store),
{
    store.cells.ncols()
}

/// Indexing by `(row, col)`: the cell at that place. The library panics on an
/// index outside the shape.
#[verifier::external_body]
pub(crate) fn get(store: &DenseStore, row: usize, col: usize) -> (value: u64)
    requires
        row < stored_rows(*store).len(),
        col < stored_width(*store),
    ensures
        value == stored_rows(*store)[row as int][col as int],
{
    store.cells[(row, col)]
}

/// Assignment through mutable indexing by `(row, col)`: that cell holds
/// `value` afterwards, every other cell and the shape are as before. The
/// library panics on an index outside the shape.
#[verifier::external_body]
pub(crate) fn set(store: &mut DenseStore, row: usize, col: usize, value: u64)
    requires
        row < stored_rows(*old(store)).len(),
        col < stored_width(*old(store)),
    ensures
        stored_rows(*final(store)).len() == stored_rows(*old(store)).len(),
        stored_width(*final(store)) == stored_width(*old(store)),
        forall|r: int, c: int|
            0 <= r < stored_rows(*old(store)).len() && 0 <= c < stored_width(*old(store))
                ==> #[trigger] stored_rows(*final(store))[r][c] == (if r == row && c == col {
                value
            } else {
                stored_rows(*old(store))[r][c]
            }),
{
    store.cells[(row, col)] = value;
}

/// `Matrix::swap_rows`: the two rows change places, cell by cell; every other
/// row and the shape are as before. The library panics on a row outside the
/// shape.
#[verifier::external_body]
pub(crate) fn swap_rows(store: &mut DenseStore, row1: usize, row2: usize)
    requires
        row1 < stored_rows(*old(store)).len(),
        row2 < stored_rows(*old(store)).len(),
    ensures
        stored_rows(*final(store)).len() == stored_rows(*old(store)).len(),
        stored_width(*final(store)) == stored_width(*old(store)),
        forall|r: int, c: int|
            0 <= r < stored_rows(*old(store)).len() && 0 <= c < stored_width(*old(store))
                ==> #[trigger] stored_rows(*final(store))[r][c] == stored_rows(*old(store))[if r
                == row1 {
                row2 as int
            } else if r == row2 {
                row1 as int
            } else {
                r
            }][c],
{
    store.cells.swap_rows(row1, row2);
}

} // verus!
