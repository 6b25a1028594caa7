//! Tests of the matrix and vector algebra engine at the `i64` scalar.

use ml::algebra::{MatLike, MatSlice, Matrix, ShapeError, Vector};
use ml::nn::activations::{Activation, ReLU};
use ml::nn::cost::{Cost, SumSquared};

#[test]
fn matrix_new_indexes_row_major() {
    let m = Matrix::new(vec![1i64, 2, 3, 4, 5, 6], 3, 2).unwrap();
    assert_eq!(m.w(), 3);
    assert_eq!(m.h(), 2);
    let buffer = [1i64, 2, 3, 4, 5, 6];
    for i in 0..2 {
        for j in 0..3 {
            assert_eq!(m.index(i, j).unwrap(), buffer[i * 3 + j]);
        }
    }
}

#[test]
fn matrix_new_rejects_wrong_length() {
    let r = Matrix::new(vec![1i64, 2, 3], 2, 2);
    assert_eq!(r.unwrap_err(), ShapeError::Len { w: 2, h: 2, actual: 3 });
}

#[test]
fn matrix_index_out_of_range() {
    let m = Matrix::new(vec![1i64, 2, 3, 4], 2, 2).unwrap();
    let e = m.index(2, 0).unwrap_err();
    assert_eq!(e.row, 2);
    assert_eq!(e.col, 0);
    assert_eq!(e.w, 2);
    assert_eq!(e.h, 2);
}

#[test]
fn transpose_twice_is_identity() {
    let m = Matrix::new(vec![1i64, 2, 3, 4, 5, 6], 3, 2).unwrap();
    let tt = m.new_transposed().new_transposed();
    assert_eq!(tt.w(), m.w());
    assert_eq!(tt.h(), m.h());
    assert_eq!(tt.iter(), m.iter());
}

#[test]
fn transpose_reorders_entries() {
    let mut m = Matrix::new(vec![1i64, 2, 3, 4, 5, 6], 3, 2).unwrap();
    m.transpose();
    assert_eq!(m.w(), 2);
    assert_eq!(m.h(), 3);
    assert_eq!(m.iter(), &vec![1i64, 4, 2, 5, 3, 6]);
}

#[test]
fn transpose_of_vector_shape_keeps_buffer() {
    let mut m = Matrix::new(vec![7i64, 8, 9], 1, 3).unwrap();
    m.transpose();
    assert_eq!(m.w(), 3);
    assert_eq!(m.h(), 1);
    assert_eq!(m.iter(), &vec![7i64, 8, 9]);
}

#[test]
fn multiply_by_identity_returns_same() {
    let a = Matrix::new(vec![1i64, 2, 3, 4, 5, 6], 3, 2).unwrap();
    let id = Matrix::new(vec![1i64, 0, 0, 0, 1, 0, 0, 0, 1], 3, 3).unwrap();
    let p = a.matmul(&id).unwrap();
    assert_eq!(p.w(), a.w());
    assert_eq!(p.h(), a.h());
    assert_eq!(p.iter(), a.iter());
}

#[test]
fn matmul_computes_products() {
    // (2x2) * (2x2), row-major.
    let a = Matrix::new(vec![1i64, 2, 3, 4], 2, 2).unwrap();
    let b = Matrix::new(vec![5i64, 6, 7, 8], 2, 2).unwrap();
    let p = a.matmul(&b).unwrap();
    assert_eq!(p.iter(), &vec![19i64, 22, 43, 50]);
}

#[test]
fn matmul_rejects_inner_mismatch() {
    let a = Matrix::new(vec![1i64, 2, 3, 4, 5, 6], 3, 2).unwrap();
    let b = Matrix::new(vec![1i64, 2, 3, 4], 2, 2).unwrap();
    assert_eq!(a.matmul(&b).unwrap_err(), ShapeError::Inner { left_w: 3, right_h: 2 });
}

#[test]
fn elementwise_ops_reject_mismatched_shapes() {
    let a = Matrix::new(vec![1i64, 2, 3, 4, 5, 6], 3, 2).unwrap();
    let b = Matrix::new(vec![1i64, 2, 3, 4], 2, 2).unwrap();
    let expected = ShapeError::Dims { left_w: 3, left_h: 2, right_w: 2, right_h: 2 };
    assert_eq!(a.add(&b).unwrap_err(), expected);
    assert_eq!(a.sub(&b).unwrap_err(), expected);
    assert_eq!(a.mul_element_wise(b).unwrap_err(), expected);
}

#[test]
fn elementwise_ops_compute_entrywise() {
    let a = Matrix::new(vec![1i64, 2, 3, 4], 2, 2).unwrap();
    let b = Matrix::new(vec![10i64, 20, 30, 40], 2, 2).unwrap();
    assert_eq!(a.add(&b).unwrap().iter(), &vec![11i64, 22, 33, 44]);
    assert_eq!(b.sub(&a).unwrap().iter(), &vec![9i64, 18, 27, 36]);
    assert_eq!(a.mul_element_wise(b).unwrap().iter(), &vec![10i64, 40, 90, 160]);
}

#[test]
fn scale_multiplies_every_entry() {
    let a = Matrix::new(vec![1i64, -2, 3, -4], 2, 2).unwrap();
    assert_eq!(a.scale(3).iter(), &vec![3i64, -6, 9, -12]);
}

#[test]
fn apply_maps_every_entry() {
    let a = Matrix::new(vec![1i64, -2, 3, -4], 2, 2).unwrap();
    let doubled = a.apply(|x| x * 2);
    assert_eq!(doubled.iter(), &vec![2i64, -4, 6, -8]);
    assert_eq!(doubled.w(), 2);
    assert_eq!(doubled.h(), 2);
}

#[test]
fn clone_row_copies_one_row() {
    let a = Matrix::new(vec![1i64, 2, 3, 4, 5, 6], 3, 2).unwrap();
    let row = a.clone_row(1).unwrap();
    assert_eq!(row.w(), 3);
    assert_eq!(row.h(), 1);
    assert_eq!(row.iter(), &vec![4i64, 5, 6]);
    assert!(a.clone_row(2).is_err());
}

#[test]
fn set_replaces_one_entry() {
    let mut a = Matrix::new(vec![1i64, 2, 3, 4], 2, 2).unwrap();
    a.set(1, 0, 9).unwrap();
    assert_eq!(a.iter(), &vec![1i64, 2, 9, 4]);
    assert!(a.set(0, 2, 7).is_err());
}

#[test]
fn new_from_2d_row_major_and_column_major() {
    let rows = vec![vec![1i64, 2, 3], vec![4, 5, 6]];
    let m = Matrix::new_from_2d(rows.clone(), true).unwrap();
    assert_eq!(m.w(), 3);
    assert_eq!(m.h(), 2);
    assert_eq!(m.iter(), &vec![1i64, 2, 3, 4, 5, 6]);
    // With row_major false the same grid gives the transpose.
    let t = Matrix::new_from_2d(rows, false).unwrap();
    assert_eq!(t.w(), 2);
    assert_eq!(t.h(), 3);
    assert_eq!(t.iter(), &vec![1i64, 4, 2, 5, 3, 6]);
}

#[test]
fn new_from_2d_rejects_ragged_rows() {
    let rows = vec![vec![1i64, 2, 3], vec![4, 5]];
    assert_eq!(
        Matrix::new_from_2d(rows, true).unwrap_err(),
        ShapeError::Row { row: 1, expected: 3, actual: 2 }
    );
}

#[test]
fn new_uniform_fills_with_value() {
    let m = Matrix::new_uniform(7i64, 3, 2);
    assert_eq!(m.iter(), &vec![7i64; 6]);
}

#[test]
fn random_entries_stay_in_range() {
    let m = Matrix::random(-5, 5, 4, 3);
    assert_eq!(m.w(), 4);
    assert_eq!(m.h(), 3);
    for &e in m.iter() {
        assert!((-5..5).contains(&e));
    }
    // A one-value range pins every draw.
    let pinned = Matrix::random(42, 43, 2, 2);
    assert_eq!(pinned.iter(), &vec![42i64; 4]);
}

#[test]
fn mat_like_exposes_shape() {
    let m = Matrix::new(vec![0i64; 12], 4, 3).unwrap();
    assert_eq!(MatLike::w(&m), 4);
    assert_eq!(MatLike::h(&m), 3);
    assert_eq!(m.len(), 12);
}

#[test]
fn mat_slice_windows_into_matrix() {
    let m = Matrix::new(vec![1i64, 2, 3, 4, 5, 6, 7, 8, 9], 3, 3).unwrap();
    let s = MatSlice::new(&m, 1, 1, 2, 2).unwrap();
    assert_eq!(s.index(0, 0).unwrap(), 5);
    assert_eq!(s.index(0, 1).unwrap(), 6);
    assert_eq!(s.index(1, 0).unwrap(), 8);
    assert_eq!(s.index(1, 1).unwrap(), 9);
    assert!(s.index(2, 0).is_err());
    assert!(MatSlice::new(&m, 2, 2, 2, 2).is_err());
}

#[test]
fn vector_basics() {
    let v = Vector::new(vec![1i64, 2, 3]);
    assert_eq!(v.shape(), 3);
    assert_eq!(v.iter(), &vec![1i64, 2, 3]);
    assert_eq!(v.index(1).unwrap(), 2);
    assert!(v.index(3).is_err());
    let u = Vector::new_uniform(4i64, 2);
    assert_eq!(u.iter(), &vec![4i64, 4]);
    let c = v.to_vec();
    assert_eq!(c.iter(), v.iter());
}

#[test]
fn vector_elementwise_and_apply() {
    let a = Vector::new(vec![1i64, 2, 3]);
    let b = Vector::new(vec![4i64, 5, 6]);
    assert_eq!(a.mul_element_wise(b).unwrap().iter(), &vec![4i64, 10, 18]);
    let doubled = a.apply(|x| x * 2);
    assert_eq!(doubled.iter(), &vec![2i64, 4, 6]);
    let short = Vector::new(vec![1i64]);
    assert!(a.mul_element_wise(short).is_err());
}

#[test]
fn vector_add_is_elementwise() {
    let a = Vector::new(vec![1i64, 2, 3]);
    let b = Vector::new(vec![10i64, 20, 30]);
    assert_eq!(a.add(&b).unwrap().iter(), &vec![11i64, 22, 33]);
    let short = Vector::new(vec![1i64]);
    assert_eq!(
        a.add(&short).unwrap_err(),
        ShapeError::Dims { left_w: 3, left_h: 1, right_w: 1, right_h: 1 }
    );
}

#[test]
fn vector_inner_and_outer_products() {
    let a = Vector::new(vec![1i64, 2, 3]);
    let b = Vector::new(vec![4i64, 5, 6]);
    assert_eq!(a.inner_prod(b).unwrap(), 32);
    let short = Vector::new(vec![1i64]);
    assert!(a.inner_prod(short).is_err());

    let c = Vector::new(vec![1i64, 2]);
    let d = Vector::new(vec![3i64, 4, 5]);
    let o = c.outer_prod(d);
    assert_eq!(o.h(), 2);
    assert_eq!(o.w(), 3);
    assert_eq!(o.iter(), &vec![3i64, 4, 5, 6, 8, 10]);
}

#[test]
fn relu_on_integers() {
    assert_eq!(<ReLU as Activation<i64>>::calc(7), 7);
    assert_eq!(<ReLU as Activation<i64>>::calc(-7), 0);
    assert_eq!(<ReLU as Activation<i64>>::calc(0), 0);
    assert_eq!(<ReLU as Activation<i64>>::prime(7), 1);
    assert_eq!(<ReLU as Activation<i64>>::prime(0), 0);
    assert_eq!(<ReLU as Activation<i64>>::prime(-7), 0);
}

#[test]
fn sum_squared_on_integers() {
    let pred = Matrix::new(vec![3i64, 5], 1, 2).unwrap();
    let actual = Matrix::new(vec![1i64, 2], 1, 2).unwrap();
    assert_eq!(<SumSquared as Cost<i64>>::calc(&pred, &actual), 13);
    let grad = <SumSquared as Cost<i64>>::prime(&pred, &actual);
    assert_eq!(grad.iter(), &vec![4i64, 6]);
    // The loss of a prediction against itself is zero.
    assert_eq!(<SumSquared as Cost<i64>>::calc(&pred, &pred), 0);
}
