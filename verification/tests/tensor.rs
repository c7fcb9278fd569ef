//! Unit tests of the tensor buffers, the numeric kernels' public faces,
//! and the shape-and-strides views.

use tapegrad::graph::tensor::TensorView;
use tapegrad::num::{wadd, wmul};
use tapegrad::tensor::{add_vecs, count_elems, matvec_mul, Tensor};

#[test]
fn from_elem_fills_every_entry() {
    let t = Tensor::from_elem(vec![2, 3], 7);
    assert_eq!(t.shape, vec![2, 3]);
    assert_eq!(t.data, vec![7; 6]);
    assert_eq!(t.len(), 6);
    assert_eq!(t.get(0), 7);
}

#[test]
fn zeros_and_from_vec() {
    let z = Tensor::zeros(vec![4]);
    assert_eq!(z.data, vec![0, 0, 0, 0]);
    let t = Tensor::from_vec(vec![2, 2], vec![1, 2, 3, 4]);
    assert_eq!(t.get(3), 4);
    assert!(t.same_shape(&Tensor::zeros(vec![2, 2])));
    assert!(!t.same_shape(&z));
}

#[test]
fn scalar_shape_holds_one_element() {
    let t = Tensor::from_elem(vec![], 9);
    assert_eq!(t.len(), 1);
    assert_eq!(t.get(0), 9);
}

#[test]
fn count_elems_multiplies_dimensions() {
    assert_eq!(count_elems(&vec![2, 3, 4]), 24);
    assert_eq!(count_elems(&vec![7]), 7);
    assert_eq!(count_elems(&vec![]), 1);
}

#[test]
fn elementwise_sum() {
    let r = add_vecs(&vec![1, 2, 3], &vec![10, 20, 30]);
    assert_eq!(r, vec![11, 22, 33]);
}

#[test]
fn matvec_kernel_exact() {
    // [[1, 2, 3], [4, 5, 6]] . [7, 8, 9] == [50, 122]
    let m = vec![1, 2, 3, 4, 5, 6];
    let v = vec![7, 8, 9];
    assert_eq!(matvec_mul(&m, &v, 2, 3), vec![50, 122]);
}

#[test]
fn matvec_with_zero_rows() {
    let r = matvec_mul(&vec![], &vec![1, 2], 0, 2);
    assert!(r.is_empty());
}

#[test]
fn wrapping_scalars() {
    assert_eq!(wadd(2, 3), 5);
    assert_eq!(wadd(i64::MAX, 1), i64::MIN);
    assert_eq!(wmul(-4, 5), -20);
    assert_eq!(wmul(i64::MIN, -1), i64::MIN);
}

#[test]
fn row_major_strides() {
    let t = TensorView::from_dimension(&[2, 3, 4]);
    assert_eq!(t.sizes, vec![2, 3, 4]);
    assert_eq!(t.strides, vec![12, 4, 1]);
    assert_eq!(t.offset, 0);
    let u = t.gen_from_same();
    assert_eq!(u.sizes, vec![2, 3, 4]);
    assert_eq!(u.strides, vec![12, 4, 1]);
}

#[test]
fn view_compatibility_checks() {
    let a = TensorView::from_dimension(&[2, 3]);
    let b = TensorView::from_dimension(&[3, 5]);
    let v = TensorView::from_dimension(&[3]);
    assert!(a.can_mm(&b));
    assert!(!b.can_mm(&a));
    assert!(a.can_mv(&v));
    assert!(!b.can_mv(&v));
    assert!(a.shares_dim(&TensorView::from_dimension(&[2, 3])));
    assert!(!a.shares_dim(&b));
}
