use gauss_stepper::arithmetic::Arithmetic;
use gauss_stepper::binary64::{greater, is_nan, is_zero, INFINITY, ONE, SIGN_BIT, ZERO};
use gauss_stepper::commands::generate_matrix;
use gauss_stepper::matrix::{Matrix, RaggedRows};
use gauss_stepper::steps::{EliminateStep, ScaleRowStep, SwapRowsStep};

type Op = fn(u64, u64) -> u64;

fn divide(a: u64, b: u64) -> u64 {
    (f64::from_bits(a) / f64::from_bits(b)).to_bits()
}

fn multiply(a: u64, b: u64) -> u64 {
    (f64::from_bits(a) * f64::from_bits(b)).to_bits()
}

fn subtract(a: u64, b: u64) -> u64 {
    (f64::from_bits(a) - f64::from_bits(b)).to_bits()
}

fn hardware() -> Arithmetic<Op, Op, Op> {
    Arithmetic::new(divide as Op, multiply as Op, subtract as Op)
}

fn bits(rows: Vec<Vec<f64>>) -> Vec<Vec<u64>> {
    rows.into_iter().map(|row| row.into_iter().map(f64::to_bits).collect()).collect()
}

fn values(matrix: &Matrix) -> Vec<Vec<f64>> {
    (0..matrix.rows())
        .map(|r| (0..matrix.cols()).map(|c| f64::from_bits(matrix.get(r, c))).collect())
        .collect()
}

fn samples() -> Vec<f64> {
    vec![
        0.0,
        -0.0,
        1.0,
        -1.0,
        0.5,
        -0.5,
        2.5,
        1e300,
        -1e300,
        f64::MIN_POSITIVE,
        -f64::MIN_POSITIVE,
        5e-324,
        -5e-324,
        f64::MAX,
        f64::MIN,
        f64::INFINITY,
        f64::NEG_INFINITY,
        f64::NAN,
        -f64::NAN,
        f64::from_bits(0x7FF0_0000_0000_0001),
        f64::from_bits(0xFFFF_FFFF_FFFF_FFFF),
        f64::EPSILON,
        1.0 + f64::EPSILON,
    ]
}

#[test]
fn constants_are_the_bit_patterns_they_name() {
    assert_eq!(ONE, 1.0f64.to_bits());
    assert_eq!(ZERO, 0.0f64.to_bits());
    assert_eq!(SIGN_BIT, (-0.0f64).to_bits());
    assert_eq!(INFINITY, f64::INFINITY.to_bits());
}

#[test]
fn zero_test_agrees_with_the_hardware() {
    for x in samples() {
        assert_eq!(is_zero(x.to_bits()), x == 0.0, "{}", x);
    }
    assert!(is_zero(0.0f64.to_bits()));
    assert!(is_zero((-0.0f64).to_bits()));
    assert!(!is_zero(5e-324f64.to_bits()));
}

#[test]
fn nan_test_agrees_with_the_hardware() {
    for x in samples() {
        assert_eq!(is_nan(x.to_bits()), x.is_nan(), "{}", x);
    }
}

#[test]
fn order_agrees_with_the_hardware() {
    for a in samples() {
        for b in samples() {
            assert_eq!(greater(a.to_bits(), b.to_bits()), a > b, "{} > {}", a, b);
        }
    }
    assert!(greater(1.0f64.to_bits(), (-5.0f64).to_bits()));
    assert!(!greater((-5.0f64).to_bits(), 1.0f64.to_bits()));
    assert!(!greater(0.0f64.to_bits(), (-0.0f64).to_bits()));
    assert!(!greater(f64::NAN.to_bits(), 0.0f64.to_bits()));
}

#[test]
fn new_is_all_zero() {
    let matrix = Matrix::new(2, 3);
    assert_eq!(matrix.rows(), 2);
    assert_eq!(matrix.cols(), 3);
    assert_eq!(values(&matrix), vec![vec![0.0, 0.0, 0.0], vec![0.0, 0.0, 0.0]]);
    for r in 0..2 {
        for c in 0..3 {
            assert_eq!(matrix.get(r, c), 0);
        }
    }
}

#[test]
fn new_without_rows_keeps_its_width() {
    let matrix = Matrix::new(0, 5);
    assert_eq!(matrix.rows(), 0);
    assert_eq!(matrix.cols(), 5);
    let narrow = Matrix::new(4, 0);
    assert_eq!(narrow.rows(), 4);
    assert_eq!(narrow.cols(), 0);
}

#[test]
fn from_vec_keeps_every_entry_in_place() {
    let matrix = Matrix::from_vec(bits(vec![vec![1.0, 2.0, 5.0], vec![1.0, 1.0, 3.0]])).unwrap();
    assert_eq!(matrix.rows(), 2);
    assert_eq!(matrix.cols(), 3);
    assert_eq!(f64::from_bits(matrix.get(0, 2)), 5.0);
    assert_eq!(f64::from_bits(matrix.get(1, 0)), 1.0);
    assert_eq!(f64::from_bits(matrix.get(1, 2)), 3.0);
    assert_eq!(values(&matrix), vec![vec![1.0, 2.0, 5.0], vec![1.0, 1.0, 3.0]]);
}

#[test]
fn from_vec_without_rows_has_no_columns() {
    let matrix = Matrix::from_vec(Vec::new()).unwrap();
    assert_eq!(matrix.rows(), 0);
    assert_eq!(matrix.cols(), 0);
}

#[test]
fn from_vec_refuses_rows_of_different_lengths() {
    let short = Matrix::from_vec(bits(vec![vec![1.0, 2.0], vec![3.0, 4.0], vec![5.0]]));
    assert_eq!(short.err(), Some(RaggedRows { row: 2, expected: 2, found: 1 }));
    let long = Matrix::from_vec(bits(vec![vec![1.0], vec![3.0, 4.0], vec![5.0, 6.0, 7.0]]));
    assert_eq!(long.err(), Some(RaggedRows { row: 1, expected: 1, found: 2 }));
    let empty_first = Matrix::from_vec(bits(vec![vec![], vec![1.0]]));
    assert_eq!(empty_first.err(), Some(RaggedRows { row: 1, expected: 0, found: 1 }));
}

#[test]
fn random_has_the_shape_asked_for() {
    let matrix = Matrix::random(3, 4, || rand::random::<f64>().to_bits());
    assert_eq!(matrix.rows(), 3);
    assert_eq!(matrix.cols(), 4);
    for row in values(&matrix) {
        assert_eq!(row.len(), 4);
        for value in row {
            assert!(0.0 <= value && value < 1.0);
        }
    }
}

#[test]
fn random_fills_column_by_column() {
    let next = std::cell::Cell::new(0u64);
    let matrix = Matrix::random(2, 3, || {
        next.set(next.get() + 1);
        next.get()
    });
    assert_eq!(matrix.get(0, 0), 1);
    assert_eq!(matrix.get(1, 0), 2);
    assert_eq!(matrix.get(0, 1), 3);
    assert_eq!(matrix.get(1, 2), 6);
}

#[test]
fn generate_matrix_has_the_shape_and_range_asked_for() {
    let matrix = generate_matrix(0.0f64.to_bits(), 1.0f64.to_bits(), 3, 4, |from, to| {
        rand::random_range(f64::from_bits(from)..f64::from_bits(to)).to_bits()
    });
    assert_eq!(matrix.len(), 3);
    for row in &matrix {
        assert_eq!(row.len(), 4);
        for &value in row {
            let value = f64::from_bits(value);
            assert!(0.0 <= value && value < 1.0);
        }
    }
}

#[test]
fn generate_matrix_hands_the_bounds_to_the_sampler() {
    let matrix = generate_matrix(7, 9, 2, 2, |from, to| from * 10 + to);
    assert_eq!(matrix, vec![vec![79, 79], vec![79, 79]]);
    assert_eq!(generate_matrix(0, 1, 0, 3, |from, _| from), Vec::<Vec<u64>>::new());
    assert_eq!(generate_matrix(0, 1, 2, 0, |from, _| from), vec![Vec::<u64>::new(), Vec::new()]);
}

#[test]
fn swap_rows_exchanges_two_rows() {
    let mut matrix = Matrix::from_vec(bits(vec![
        vec![1.0, 2.0],
        vec![3.0, 4.0],
        vec![5.0, 6.0],
    ]))
    .unwrap();
    let step = matrix.swap_rows(0, 2);
    assert_eq!(step, SwapRowsStep { source_row: 0, target_row: 2 });
    assert_eq!(values(&matrix), vec![vec![5.0, 6.0], vec![3.0, 4.0], vec![1.0, 2.0]]);
    assert_eq!(matrix.rows(), 3);
    assert_eq!(matrix.cols(), 2);
}

#[test]
fn swap_rows_with_itself_changes_nothing() {
    let mut matrix =
        Matrix::from_vec(bits(vec![vec![1.0, 2.0], vec![3.0, 4.0]])).unwrap();
    for i in 0..2 {
        let step = matrix.swap_rows(i, i);
        assert_eq!(step.source_row, i);
        assert_eq!(step.target_row, i);
        assert_eq!(values(&matrix), vec![vec![1.0, 2.0], vec![3.0, 4.0]]);
    }
}

#[test]
fn scale_row_multiplies_one_row() {
    let mut matrix =
        Matrix::from_vec(bits(vec![vec![1.0, -2.0, 0.5], vec![3.0, 4.0, 5.0]])).unwrap();
    let step = matrix.scale_row(0, 3.0f64.to_bits(), &hardware());
    assert_eq!(step, ScaleRowStep { source_row: 0, factor: 3.0f64.to_bits() });
    assert_eq!(values(&matrix), vec![vec![3.0, -6.0, 1.5], vec![3.0, 4.0, 5.0]]);
    let zeroed = matrix.scale_row(1, 0.0f64.to_bits(), &hardware());
    assert_eq!(zeroed.factor, 0);
    assert_eq!(values(&matrix), vec![vec![3.0, -6.0, 1.5], vec![0.0, 0.0, 0.0]]);
}

#[test]
fn eliminate_takes_the_multiple_of_the_pivot_row() {
    let mut matrix = Matrix::from_vec(bits(vec![
        vec![2.0, 1.0, -1.0, 8.0],
        vec![-3.0, -1.0, 2.0, -11.0],
        vec![-2.0, 1.0, 2.0, -3.0],
    ]))
    .unwrap();
    let step = matrix.eliminate(0, 1, &hardware()).unwrap();
    assert_eq!(
        step,
        EliminateStep { source_row: 0, target_row: 1, factor: (-1.5f64).to_bits() }
    );
    assert_eq!(
        values(&matrix),
        vec![
            vec![2.0, 1.0, -1.0, 8.0],
            vec![0.0, 0.5, 0.5, 1.0],
            vec![-2.0, 1.0, 2.0, -3.0],
        ]
    );
}

#[test]
fn eliminate_rounds_the_product_before_the_subtraction() {
    let third = 1.0f64 / 3.0;
    let mut matrix = Matrix::from_vec(bits(vec![vec![3.0, 0.1], vec![1.0, 0.7]])).unwrap();
    let step = matrix.eliminate(0, 1, &hardware()).unwrap();
    assert_eq!(f64::from_bits(step.factor), third);
    assert_eq!(f64::from_bits(matrix.get(1, 0)), 1.0 - third * 3.0);
    assert_eq!(f64::from_bits(matrix.get(1, 1)), 0.7 - third * 0.1);
    assert_eq!(f64::from_bits(matrix.get(0, 0)), 3.0);
    assert_eq!(f64::from_bits(matrix.get(0, 1)), 0.1);
}

#[test]
fn eliminate_uses_the_diagonal_entry_of_the_pivot_row() {
    let mut matrix = Matrix::from_vec(bits(vec![
        vec![1.0, 0.0, 0.0],
        vec![0.0, 4.0, 2.0],
        vec![5.0, 2.0, 3.0],
    ]))
    .unwrap();
    let step = matrix.eliminate(1, 2, &hardware()).unwrap();
    assert_eq!(f64::from_bits(step.factor), 0.5);
    assert_eq!(values(&matrix)[2], vec![5.0, 0.0, 2.0]);
}

#[test]
fn eliminate_refuses_a_zero_pivot_and_changes_nothing() {
    let mut matrix =
        Matrix::from_vec(bits(vec![vec![0.0, 1.0, 2.0], vec![0.0, 3.0, 4.0]])).unwrap();
    assert_eq!(matrix.eliminate(0, 1, &hardware()), Err(()));
    assert_eq!(values(&matrix), vec![vec![0.0, 1.0, 2.0], vec![0.0, 3.0, 4.0]]);
    let mut nonzero_below =
        Matrix::from_vec(bits(vec![vec![0.0, 1.0], vec![7.0, 3.0]])).unwrap();
    assert_eq!(nonzero_below.eliminate(0, 1, &hardware()), Err(()));
    assert_eq!(values(&nonzero_below), vec![vec![0.0, 1.0], vec![7.0, 3.0]]);
}

#[test]
fn eliminate_of_a_row_by_itself_clears_it() {
    let mut matrix = Matrix::from_vec(bits(vec![vec![2.0, 4.0], vec![1.0, 1.0]])).unwrap();
    let step = matrix.eliminate(0, 0, &hardware()).unwrap();
    assert_eq!(f64::from_bits(step.factor), 1.0);
    assert_eq!(values(&matrix), vec![vec![0.0, 0.0], vec![1.0, 1.0]]);
}

#[test]
fn reduce_is_a_product_and_a_difference() {
    let arithmetic = hardware();
    let out = arithmetic.reduce(10.0f64.to_bits(), 3.0f64.to_bits(), 2.0f64.to_bits());
    assert_eq!(f64::from_bits(out), 4.0);
}
