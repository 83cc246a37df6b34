//! Operations that a front end calls.
use vstd::prelude::*;

verus! {

/// A nested list of `rows` rows of `cols` values each, every value drawn
/// from `sample` on the bounds `from` and `to`, row by row.
pub fn generate_matrix<F: Fn(u64, u64) -> u64>(
    from: u64,
    to: u64,
    rows: usize,
    cols: usize,
    sample: F,
) -> (matrix: Vec<Vec<u64>>)
    requires
        sample.requires((from, to)),
    ensures
        matrix@.len() == rows,
        forall|r: int| 0 <= r < rows ==> (#[trigger] matrix@[r])@.len() == cols,
        forall|r: int, c: int|
            0 <= r < rows && 0 <= c < cols ==> sample.ensures((from, to), #[trigger] matrix@[r]@[c]),
{
    let mut matrix: Vec<Vec<u64>> = Vec::new();
    let mut r: usize = 0;
    while r < rows
        invariant
            r <= rows,
            sample.requires((from, to)),
            matrix@.len() == r,
            forall|i: int| 0 <= i < r ==> (#[trigger] matrix@[i])@.len() == cols,
            forall|i: int, c: int|
                0 <= i < r && 0 <= c < cols ==> sample.ensures(
                    (from, to),
                    #[trigger] matrix@[i]@[c],
                ),
        decreases rows - r,
    {
        let mut row: Vec<u64> = Vec::new();
        let mut c: usize = 0;
        while c < cols
            invariant
                c <= cols,
                sample.requires((from, to)),
                row@.len() == c,
                forall|j: int| 0 <= j < c ==> sample.ensures((from, to), #[trigger] row@[j]),
            decreases cols - c,
        {
            let value: u64 = sample(from, to);
            row.push(value);
            c += 1;
        }
        matrix.push(row);
        r += 1;
    }
    matrix
}

} // verus!
