use rust_linalg::{Matrix, MatrixError};

fn sample() -> Matrix<i32> {
    Matrix::new(vec![vec![1, 2, 1], vec![4, 1, 3]]).unwrap()
}

#[test]
fn new_keeps_shape_and_entries() {
    let rows = vec![vec![1, 2, 3], vec![4, 5, 6]];
    let m = Matrix::new(rows.clone()).unwrap();
    assert_eq!(m.rows, 2);
    assert_eq!(m.cols, 3);
    for i in 0..2 {
        for j in 0..3 {
            assert_eq!(m.data[i][j], rows[i][j]);
        }
    }
}

#[test]
fn new_rejects_ragged_rows() {
    let r = Matrix::new(vec![vec![1, 2, 3], vec![4, 5]]);
    assert_eq!(r.unwrap_err(), MatrixError::DimensionMismatch);
    let r = Matrix::new(vec![vec![1], vec![2], vec![3, 4]]);
    assert_eq!(r.unwrap_err(), MatrixError::DimensionMismatch);
}

#[test]
fn new_without_rows_is_zero_by_zero() {
    let m: Matrix<i32> = Matrix::new(vec![]).unwrap();
    assert_eq!(m.rows, 0);
    assert_eq!(m.cols, 0);
    assert!(m.data.is_empty());
}

#[test]
fn zeros_and_ones_are_constant() {
    let z: Matrix<i64> = Matrix::zeros(2, 3);
    let o: Matrix<i64> = Matrix::ones(2, 3);
    assert_eq!((z.rows, z.cols), (2, 3));
    assert_eq!((o.rows, o.cols), (2, 3));
    assert_eq!(z.row(1).unwrap(), vec![0, 0, 0]);
    assert_eq!(z.col(2).unwrap(), vec![0, 0]);
    assert_eq!(o.row(0).unwrap(), vec![1, 1, 1]);
    assert_eq!(o.col(0).unwrap(), vec![1, 1]);
}

#[test]
fn zeros_with_no_rows_keeps_columns() {
    let z: Matrix<u64> = Matrix::zeros(0, 4);
    assert_eq!((z.rows, z.cols), (0, 4));
    assert!(z.data.is_empty());
    assert_eq!(z.col(3).unwrap(), Vec::<u64>::new());
}

#[test]
fn row_and_col_bounds() {
    let m = sample();
    assert_eq!(m.row(0).unwrap(), vec![1, 2, 1]);
    assert_eq!(m.row(1).unwrap(), vec![4, 1, 3]);
    assert_eq!(m.row(2).unwrap_err(), MatrixError::IndexOutOfRange);
    assert_eq!(m.col(0).unwrap(), vec![1, 4]);
    assert_eq!(m.col(2).unwrap(), vec![1, 3]);
    assert_eq!(m.col(3).unwrap_err(), MatrixError::IndexOutOfRange);
}

#[test]
fn row_and_col_on_malformed_storage() {
    let m = Matrix { rows: 3, cols: 2, data: vec![vec![1, 2], vec![3]] };
    assert_eq!(m.row(2).unwrap_err(), MatrixError::DimensionMismatch);
    assert_eq!(m.col(1).unwrap_err(), MatrixError::DimensionMismatch);
    assert_eq!(m.col(0).unwrap(), vec![1, 3]);
}

#[test]
fn add_then_sub_gives_back_the_first() {
    let a = sample();
    let b = Matrix::new(vec![vec![-5, 7, 0], vec![2, -9, 11]]).unwrap();
    let s = a.add(&b).unwrap();
    assert_eq!(s.data, vec![vec![-4, 9, 1], vec![6, -8, 14]]);
    let d = s.sub(&b).unwrap();
    assert_eq!((d.rows, d.cols), (2, 3));
    assert_eq!(d.data, a.data);
}

#[test]
fn add_and_sub_reject_other_shapes() {
    let a = sample();
    let b: Matrix<i32> = Matrix::ones(3, 2);
    assert_eq!(a.add(&b).unwrap_err(), MatrixError::DimensionMismatch);
    assert_eq!(a.sub(&b).unwrap_err(), MatrixError::DimensionMismatch);
    let broken = Matrix { rows: 2, cols: 3, data: vec![vec![1, 2, 3]] };
    assert_eq!(a.add(&broken).unwrap_err(), MatrixError::DimensionMismatch);
}

#[test]
fn transpose_twice_is_identity() {
    let a = sample();
    let t = a.transpose().unwrap();
    assert_eq!((t.rows, t.cols), (3, 2));
    assert_eq!(t.data, vec![vec![1, 4], vec![2, 1], vec![1, 3]]);
    let tt = t.transpose().unwrap();
    assert_eq!((tt.rows, tt.cols), (2, 3));
    assert_eq!(tt.data, a.data);
}

#[test]
fn transpose_of_empty_shapes() {
    let a: Matrix<i32> = Matrix::zeros(3, 0);
    let t = a.transpose().unwrap();
    assert_eq!((t.rows, t.cols), (0, 3));
    let tt = t.transpose().unwrap();
    assert_eq!((tt.rows, tt.cols), (3, 0));
    assert_eq!(tt.data, a.data);
}

#[test]
fn transpose_rejects_malformed() {
    let m = Matrix { rows: 2, cols: 2, data: vec![vec![1, 2], vec![3, 4], vec![5, 6]] };
    assert_eq!(m.transpose().unwrap_err(), MatrixError::DimensionMismatch);
    assert_eq!(m.check_valid_dims().unwrap_err(), MatrixError::DimensionMismatch);
}

#[test]
fn dot_with_ones_sums_rows() {
    let a = sample();
    let b: Matrix<i32> = Matrix::ones(3, 4);
    let p = a.dot(&b).unwrap();
    assert_eq!((p.rows, p.cols), (2, 4));
    assert_eq!(p.data, vec![vec![4, 4, 4, 4], vec![8, 8, 8, 8]]);
}

#[test]
fn dot_general_product() {
    let a = Matrix::new(vec![vec![1i64, 2], vec![3, 4]]).unwrap();
    let b = Matrix::new(vec![vec![5i64, 6, 7], vec![8, 9, 10]]).unwrap();
    let p = a.dot(&b).unwrap();
    assert_eq!(p.data, vec![vec![21, 24, 27], vec![47, 54, 61]]);
}

#[test]
fn dot_rejects_incompatible() {
    let a = sample();
    let b: Matrix<i32> = Matrix::ones(2, 2);
    assert_eq!(a.dot(&b).unwrap_err(), MatrixError::IncompatibleDimensions);
    let broken = Matrix { rows: 3, cols: 1, data: vec![vec![1], vec![2]] };
    assert_eq!(a.dot(&broken).unwrap_err(), MatrixError::DimensionMismatch);
}

#[test]
fn dot_with_empty_inner_dimension_is_zeros() {
    let a: Matrix<i32> = Matrix::ones(2, 0);
    let b: Matrix<i32> = Matrix::ones(0, 3);
    let p = a.dot(&b).unwrap();
    assert_eq!(p.data, vec![vec![0, 0, 0], vec![0, 0, 0]]);
}

#[test]
fn dot_scalar_scales_each_entry() {
    let a = sample();
    let b: Matrix<i32> = Matrix::ones(3, 4);
    let p = a.dot(&b).unwrap().dot_scalar(2);
    assert_eq!((p.rows, p.cols), (2, 4));
    assert_eq!(p.data, vec![vec![8, 8, 8, 8], vec![16, 16, 16, 16]]);
    let q = a.dot_scalar(-3);
    assert_eq!(q.data, vec![vec![-3, -6, -3], vec![-12, -3, -9]]);
}

#[test]
fn check_same_dims_cases() {
    let a = sample();
    assert!(a.check_same_dims(&sample()).is_ok());
    let b: Matrix<i32> = Matrix::zeros(2, 2);
    assert_eq!(a.check_same_dims(&b).unwrap_err(), MatrixError::DimensionMismatch);
}

#[test]
fn render_ones() {
    let o: Matrix<i32> = Matrix::ones(3, 4);
    let text = o.render();
    assert_eq!(text, "[1, 1, 1, 1]\n[1, 1, 1, 1]\n[1, 1, 1, 1]");
    assert_eq!(text.lines().count(), 3);
    for line in text.lines() {
        assert_eq!(line, "[1, 1, 1, 1]");
    }
}

#[test]
fn render_values_and_signs() {
    let m = Matrix::new(vec![vec![-7i64, 120], vec![0, 3]]).unwrap();
    assert_eq!(m.render(), "[-7, 120]\n[0, 3]");
    let u = Matrix::new(vec![vec![18446744073709551615u64]]).unwrap();
    assert_eq!(u.render(), "[18446744073709551615]");
}

#[test]
fn render_empty_rows() {
    let m: Matrix<i32> = Matrix::zeros(2, 0);
    assert_eq!(m.render(), "[]\n[]");
    let e: Matrix<i32> = Matrix::zeros(0, 0);
    assert_eq!(e.render(), "");
}

#[test]
fn range_checks_accept_small_values() {
    let a = sample();
    let b: Matrix<i32> = Matrix::ones(3, 4);
    assert!(a.dot_in_range(&b));
    assert!(a.scale_in_range(2));
    assert!(a.add_in_range(&sample()));
    assert!(a.sub_in_range(&sample()));
}

#[test]
fn range_checks_find_overflow() {
    let big = Matrix::new(vec![vec![i32::MAX, 1]]).unwrap();
    let one: Matrix<i32> = Matrix::ones(1, 2);
    assert!(!big.add_in_range(&one));
    assert!(big.sub_in_range(&one));
    assert!(!big.scale_in_range(2));
    assert!(big.scale_in_range(1));
    let col: Matrix<i32> = Matrix::ones(2, 1);
    assert!(!big.dot_in_range(&col));
    let low = Matrix::new(vec![vec![0u64, 5]]).unwrap();
    let ones_u: Matrix<u64> = Matrix::ones(1, 2);
    assert!(!low.sub_in_range(&ones_u));
    assert_eq!(ones_u.sub(&ones_u).unwrap().data, vec![vec![0, 0]]);
}

#[test]
fn range_checks_ignore_refused_shapes() {
    let a = sample();
    let b: Matrix<i32> = Matrix::ones(2, 2);
    assert!(a.dot_in_range(&b));
    assert!(a.add_in_range(&b));
}
