//! Tests of the operator capabilities taken on their own, against a
//! hand-built buffer arena.

use tapegrad::autograd::addition::{AdditionBackward, AdditionForward};
use tapegrad::autograd::leaf::{LeafBackward, LeafForward};
use tapegrad::autograd::matvecmul::{MatVecMulBackward, MatVecMulForward};
use tapegrad::autograd::operations::{BackwardOp, ForwardOp};
use tapegrad::tensor::Tensor;

#[test]
fn leaf_zeros_allocates_a_zero_buffer() {
    let mut bufs: Vec<Tensor> = Vec::new();
    let (op, handle) = LeafForward::zeros(vec![2, 3], &mut bufs);
    assert_eq!(handle, 0);
    assert_eq!(op.value, 0);
    assert_eq!(bufs[0].shape, vec![2, 3]);
    assert_eq!(bufs[0].data, vec![0; 6]);
    op.forward(&mut bufs);
    assert_eq!(bufs[0].data, vec![0; 6]);
}

#[test]
fn matvecmul_new_eagerly_computes() {
    let mut bufs: Vec<Tensor> = Vec::new();
    bufs.push(Tensor::from_vec(vec![2, 3], vec![1, 2, 3, 4, 5, 6]));
    bufs.push(Tensor::from_vec(vec![3], vec![7, 8, 9]));
    let op = MatVecMulForward::new(0, 1, &mut bufs);
    assert_eq!(op.output, 2);
    assert_eq!(bufs[2].shape, vec![2]);
    assert_eq!(bufs[2].data, vec![50, 122]);
}

#[test]
fn addition_forward_overwrites_its_output() {
    let mut bufs = vec![
        Tensor::from_vec(vec![2], vec![1, 2]),
        Tensor::from_vec(vec![2], vec![30, 40]),
        Tensor::from_vec(vec![2], vec![-1, -1]),
    ];
    let op = AdditionForward { operands: [0, 1], output: 2 };
    op.forward(&mut bufs);
    assert_eq!(bufs[2].data, vec![31, 42]);
    assert_eq!(bufs[0].data, vec![1, 2]);
    assert_eq!(bufs[1].data, vec![30, 40]);
}

#[test]
fn addition_backward_accumulates() {
    let mut bufs = vec![
        Tensor::from_vec(vec![2], vec![5, 5]),
        Tensor::from_vec(vec![2], vec![1, 2]),
    ];
    let op = AdditionBackward { operands_grad: [Some(0), None], output_grad: 1 };
    op.backward(&mut bufs);
    assert_eq!(bufs[0].data, vec![6, 7]);
    op.backward(&mut bufs);
    assert_eq!(bufs[0].data, vec![7, 9]);
}

#[test]
fn matvecmul_backward_accumulates_both_gradients() {
    let mut bufs = vec![
        Tensor::from_vec(vec![2, 2], vec![1, 2, 3, 4]),
        Tensor::from_vec(vec![2], vec![5, 6]),
        Tensor::from_vec(vec![2], vec![10, 100]),
        Tensor::from_vec(vec![2, 2], vec![1, 1, 1, 1]),
        Tensor::from_vec(vec![2], vec![2, 2]),
    ];
    let op = MatVecMulBackward {
        matrix_out: 0,
        vector_out: 1,
        output_grad: 2,
        matrix_grad: Some(3),
        vector_grad: Some(4),
    };
    op.backward(&mut bufs);
    // matrix grad: 1 + outer([10, 100], [5, 6]); vector grad: 2 + A^T g.
    assert_eq!(bufs[3].data, vec![51, 61, 501, 601]);
    assert_eq!(bufs[4].data, vec![312, 422]);
}

#[test]
fn leaf_backward_touches_nothing() {
    let mut bufs = vec![Tensor::from_vec(vec![1], vec![42])];
    let op = LeafBackward { grad: 0 };
    op.backward(&mut bufs);
    assert_eq!(bufs[0].data, vec![42]);
}
