use mocasa::error::ErrorKind;
use mocasa::matrix::{Matrix, MSG_WRONG_ELEMENT_COUNT};
use mocasa::select::marked_places;
use mocasa::sym_matrix::SymMatrix;

#[test]
fn fill_puts_each_element_at_its_place() {
    let matrix = Matrix::fill(3, 4, |i_row, i_col| 10.0 * i_row as f64 + i_col as f64);
    assert_eq!(matrix.n_rows(), 3);
    assert_eq!(matrix.n_cols(), 4);
    for i_row in 0..3 {
        for i_col in 0..4 {
            assert_eq!(*matrix.get(i_row, i_col), 10.0 * i_row as f64 + i_col as f64);
        }
    }
    assert_eq!(matrix.row(0), &[0.0, 1.0, 2.0, 3.0]);
    assert_eq!(matrix.row(2), &[20.0, 21.0, 22.0, 23.0]);
    assert_eq!(
        matrix.elements(),
        &vec![0.0, 1.0, 2.0, 3.0, 10.0, 11.0, 12.0, 13.0, 20.0, 21.0, 22.0, 23.0]
    );
}

#[test]
fn matrix_without_columns_has_empty_rows() {
    let matrix = Matrix::fill(3, 0, |_, _| 1u8);
    assert_eq!(matrix.n_rows(), 3);
    assert_eq!(matrix.n_cols(), 0);
    assert!(matrix.row(2).is_empty());
    let none = Matrix::fill(0, 5, |_, _| 1u8);
    assert_eq!(none.n_rows(), 0);
    assert_eq!(none.n_cols(), 5);
    assert!(none.elements().is_empty());
}

#[test]
fn from_vec_takes_the_elements_row_by_row() {
    let matrix = Matrix::from_vec(2, 3, vec![1, 2, 3, 4, 5, 6]).unwrap();
    assert_eq!(matrix.row(0), &[1, 2, 3]);
    assert_eq!(matrix.row(1), &[4, 5, 6]);
    assert_eq!(*matrix.get(1, 0), 4);
}

#[test]
fn from_vec_refuses_a_wrong_number_of_elements() {
    let error = Matrix::from_vec(2, 3, vec![1, 2, 3, 4, 5]).unwrap_err();
    assert_eq!(error.kind, ErrorKind::Mocasa);
    assert_eq!(error.message, MSG_WRONG_ELEMENT_COUNT);
    assert!(Matrix::from_vec(2, 3, vec![0u8; 7]).is_err());
    assert!(Matrix::from_vec(usize::MAX, 2, vec![0u8; 2]).is_err());
    assert!(Matrix::from_vec(0, 3, Vec::<u8>::new()).is_ok());
}

#[test]
fn set_changes_one_element() {
    let mut matrix = Matrix::filled(2, 2, 0.5);
    matrix.set(1, 0, 2.5);
    assert_eq!(matrix.row(0), &[0.5, 0.5]);
    assert_eq!(matrix.row(1), &[2.5, 0.5]);
}

#[test]
fn only_cols_picks_columns_in_the_order_asked_for() {
    let matrix = Matrix::from_vec(2, 4, vec![0, 1, 2, 3, 10, 11, 12, 13]).unwrap();
    let picked = matrix.only_cols(&vec![3, 1]);
    assert_eq!(picked.n_rows(), 2);
    assert_eq!(picked.n_cols(), 2);
    assert_eq!(picked.row(0), &[3, 1]);
    assert_eq!(picked.row(1), &[13, 11]);
    let none = matrix.only_cols(&vec![]);
    assert_eq!(none.n_rows(), 2);
    assert_eq!(none.n_cols(), 0);
}

#[test]
fn zip_apply_combines_place_by_place() {
    let mut sums = Matrix::from_vec(2, 2, vec![1.0, 2.0, 3.0, 4.0]).unwrap();
    let values = Matrix::from_vec(2, 2, vec![0.5, 0.25, -3.0, 10.0]).unwrap();
    sums.zip_apply(&values, &|sum: f64, value: f64| sum + value);
    assert_eq!(sums.elements(), &vec![1.5, 2.25, 0.0, 14.0]);
}

#[test]
fn marked_places_are_listed_in_rising_order() {
    assert_eq!(marked_places(&vec![false, true, true, false, true]), vec![1, 2, 4]);
    assert_eq!(marked_places(&vec![]), Vec::<usize>::new());
    assert_eq!(marked_places(&vec![false, false]), Vec::<usize>::new());
    assert_eq!(marked_places(&vec![true]), vec![0]);
}

#[test]
fn symmetric_matrix_stores_the_lower_triangle() {
    assert_eq!(SymMatrix::<u8>::i_element(0, 0), 0);
    assert_eq!(SymMatrix::<u8>::i_element(1, 0), 1);
    assert_eq!(SymMatrix::<u8>::i_element(0, 1), 1);
    assert_eq!(SymMatrix::<u8>::i_element(1, 1), 2);
    assert_eq!(SymMatrix::<u8>::i_element(2, 0), 3);
    assert_eq!(SymMatrix::<u8>::i_element(3, 2), 8);
    assert_eq!(SymMatrix::<u8>::i_element(2, 3), 8);
    assert_eq!(SymMatrix::<u8>::i_element(3, 3), 9);
}

#[test]
fn symmetric_matrix_reads_the_same_both_ways() {
    let mut matrix = SymMatrix::new(0.0, 4);
    assert_eq!(matrix.size(), 4);
    matrix.set(1, 3, 2.5);
    matrix.set(2, 2, -1.0);
    for i1 in 0..4 {
        for i2 in 0..4 {
            let expected = if (i1, i2) == (1, 3) || (i1, i2) == (3, 1) {
                2.5
            } else if (i1, i2) == (2, 2) {
                -1.0
            } else {
                0.0
            };
            assert_eq!(*matrix.get(i1, i2), expected);
        }
    }
}
