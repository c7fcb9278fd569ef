//! End-to-end tests of the tape: eager construction, forward replay,
//! backward sweeps, and the typed error outcomes.

use tapegrad::autograd::expr::Expression;
use tapegrad::autograd::tape::{Tape, TapeError};
use tapegrad::tensor::Tensor;

#[test]
fn mutate_and_replay() {
    let mut tape = Tape::new();
    let a = tape.from_elem(vec![3, 3], 5);
    let x = tape.from_elem(vec![3], 2);
    let y = a.mv(&x, &mut tape).unwrap();
    tape.forward();
    assert_eq!(tape.value_of(&y), vec![30, 30, 30]);
    tape.assign(&x, &Tensor::from_elem(vec![3], 0)).unwrap();
    tape.forward();
    assert_eq!(tape.value_of(&y), vec![0, 0, 0]);
}

#[test]
fn gradient_correctness() {
    let mut tape = Tape::new();
    let a = tape.from_elem_grad(vec![3, 4], 5);
    let x = tape.from_elem_grad(vec![4], 3);
    let b = tape.from_elem_grad(vec![3], -1);
    let prod = a.mv(&x, &mut tape).unwrap();
    let y = prod.add(&b, &mut tape).unwrap();
    tape.forward();
    assert_eq!(tape.value_of(&y), vec![59, 59, 59]);
    y.backward(&Tensor::from_elem(vec![3], 1), &mut tape).unwrap();
    assert_eq!(tape.grad_of(&b).unwrap(), vec![1, 1, 1]);
    assert_eq!(tape.grad_of(&x).unwrap(), vec![15, 15, 15, 15]);
    assert_eq!(tape.grad_of(&a).unwrap(), vec![3; 12]);
}

#[test]
fn diamond_gradients_accumulate() {
    // One leaf feeds two separate consumers that both flow into the
    // terminal node; its gradient must be the sum over both paths.
    let mut tape = Tape::new();
    let x = tape.from_elem_grad(vec![2], 1);
    let c = tape.from_elem(vec![2], 0);
    let u = x.add(&c, &mut tape).unwrap();
    let v = x.add(&c, &mut tape).unwrap();
    let t = u.add(&v, &mut tape).unwrap();
    t.backward(&Tensor::from_elem(vec![2], 1), &mut tape).unwrap();
    assert_eq!(tape.grad_of(&x).unwrap(), vec![2, 2]);
}

#[test]
fn value_added_to_itself_accumulates_twice() {
    let mut tape = Tape::new();
    let x = tape.from_elem_grad(vec![2], 3);
    let y = x.add(&x, &mut tape).unwrap();
    assert_eq!(tape.value_of(&y), vec![6, 6]);
    y.backward(&Tensor::from_elem(vec![2], 1), &mut tape).unwrap();
    assert_eq!(tape.grad_of(&x).unwrap(), vec![2, 2]);
}

#[test]
fn add_shape_mismatch() {
    let mut tape = Tape::new();
    let a = tape.from_elem(vec![3], 1);
    let b = tape.from_elem(vec![4], 1);
    match a.add(&b, &mut tape) {
        Err(TapeError::ShapeMismatch { left, right }) => {
            assert_eq!(left, vec![3]);
            assert_eq!(right, vec![4]);
        }
        _ => panic!("adding shapes (3,) and (4,) must fail with a shape mismatch"),
    }
}

#[test]
fn mv_shape_mismatch() {
    let mut tape = Tape::new();
    let a = tape.from_elem(vec![3, 4], 5);
    let x = tape.from_elem(vec![3], 2);
    match a.mv(&x, &mut tape) {
        Err(TapeError::ShapeMismatch { left, right }) => {
            assert_eq!(left, vec![3, 4]);
            assert_eq!(right, vec![3]);
        }
        _ => panic!("mv with 4 columns and a length-3 vector must fail with a shape mismatch"),
    }
}

#[test]
fn mv_on_non_matrix_is_rejected() {
    let mut tape = Tape::new();
    let a = tape.from_elem(vec![3], 5);
    let x = tape.from_elem(vec![3], 2);
    assert!(matches!(
        a.mv(&x, &mut tape),
        Err(TapeError::ShapeMismatch { .. })
    ));
}

#[test]
fn backward_is_terminal_only() {
    let mut tape = Tape::new();
    let a = tape.from_elem_grad(vec![2, 2], 1);
    let x = tape.from_elem_grad(vec![2], 1);
    let y = a.mv(&x, &mut tape).unwrap();
    let seed = Tensor::from_elem(vec![2], 1);
    match a.backward(&Tensor::from_elem(vec![2, 2], 1), &mut tape) {
        Err(TapeError::NotTerminalNode { index }) => assert_eq!(index, a.index),
        _ => panic!("backward on a non-terminal node must fail"),
    }
    match x.backward(&seed, &mut tape) {
        Err(TapeError::NotTerminalNode { index }) => assert_eq!(index, x.index),
        _ => panic!("backward on a non-terminal node must fail"),
    }
    y.backward(&seed, &mut tape).unwrap();
}

#[test]
fn backward_seed_shape_mismatch() {
    let mut tape = Tape::new();
    let x = tape.from_elem_grad(vec![3], 2);
    assert!(matches!(
        x.backward(&Tensor::from_elem(vec![2], 1), &mut tape),
        Err(TapeError::ShapeMismatch { .. })
    ));
}

#[test]
fn backward_without_gradient_is_a_noop() {
    let mut tape = Tape::new();
    let x = tape.from_elem(vec![2], 9);
    assert!(!x.grad_exists());
    x.backward(&Tensor::from_elem(vec![2], 1), &mut tape).unwrap();
    assert_eq!(tape.value_of(&x), vec![9, 9]);
    assert!(tape.grad_of(&x).is_none());
}

#[test]
fn leaf_operators_mutate_nothing() {
    let mut tape = Tape::new();
    let x = tape.from_elem_grad(vec![2], 7);
    let y = tape.from_elem(vec![3], -4);
    tape.forward();
    assert_eq!(tape.value_of(&x), vec![7, 7]);
    assert_eq!(tape.value_of(&y), vec![-4, -4, -4]);
    assert_eq!(tape.grad_of(&x).unwrap(), vec![0, 0]);
    // The terminal leaf's backward is a no-op: the seed stays put and no
    // other buffer moves.
    y.backward(&Tensor::from_elem(vec![3], 1), &mut tape).unwrap();
    assert_eq!(tape.value_of(&x), vec![7, 7]);
    assert_eq!(tape.value_of(&y), vec![-4, -4, -4]);
    assert_eq!(tape.grad_of(&x).unwrap(), vec![0, 0]);
}

#[test]
fn forward_replay_is_deterministic() {
    let mut tape = Tape::new();
    let a = tape.from_elem_grad(vec![2, 3], 2);
    let x = tape.from_elem(vec![3], 4);
    let y = a.mv(&x, &mut tape).unwrap();
    let b = tape.from_elem(vec![2], 1);
    let z = y.add(&b, &mut tape).unwrap();
    tape.forward();
    let first = tape.value_of(&z);
    assert_eq!(first, vec![25, 25]);
    tape.forward();
    assert_eq!(tape.value_of(&z), first);
    assert_eq!(tape.value_of(&y), vec![24, 24]);
}

#[test]
fn eager_evaluation_at_construction() {
    let mut tape = Tape::new();
    let a = tape.from_elem(vec![2], 10);
    let b = tape.from_elem(vec![2], -3);
    let s = a.add(&b, &mut tape).unwrap();
    // No forward() call yet: the sum was computed when the node was built.
    assert_eq!(tape.value_of(&s), vec![7, 7]);
}

#[test]
fn mv_with_distinct_entries() {
    let mut tape = Tape::new();
    let a = tape.from_elem(vec![2, 2], 0);
    let x = tape.from_elem(vec![2], 0);
    tape.assign(&a, &Tensor::from_vec(vec![2, 2], vec![1, 2, 3, 4])).unwrap();
    tape.assign(&x, &Tensor::from_vec(vec![2], vec![5, 6])).unwrap();
    let y = a.mv(&x, &mut tape).unwrap();
    // The product was eagerly computed from stale zeros only if assign
    // did not take effect; with the assigned entries it is exact.
    assert_eq!(tape.value_of(&y), vec![17, 39]);
    tape.forward();
    assert_eq!(tape.value_of(&y), vec![17, 39]);
}

#[test]
fn mv_gradients_with_distinct_entries() {
    let mut tape = Tape::new();
    let a = tape.from_elem_grad(vec![2, 2], 0);
    let x = tape.from_elem_grad(vec![2], 0);
    tape.assign(&a, &Tensor::from_vec(vec![2, 2], vec![1, 2, 3, 4])).unwrap();
    tape.assign(&x, &Tensor::from_vec(vec![2], vec![5, 6])).unwrap();
    let y = a.mv(&x, &mut tape).unwrap();
    tape.forward();
    y.backward(&Tensor::from_vec(vec![2], vec![10, 100]), &mut tape)
        .unwrap();
    // grad(A) = outer([10, 100], [5, 6]); grad(x) = A^T . [10, 100].
    assert_eq!(tape.grad_of(&a).unwrap(), vec![50, 60, 500, 600]);
    assert_eq!(tape.grad_of(&x).unwrap(), vec![310, 420]);
}

#[test]
fn assign_shape_mismatch() {
    let mut tape = Tape::new();
    let x = tape.from_elem(vec![2], 1);
    assert!(matches!(
        tape.assign(&x, &Tensor::from_elem(vec![3], 0)),
        Err(TapeError::ShapeMismatch { .. })
    ));
    assert_eq!(tape.value_of(&x), vec![1, 1]);
}

#[test]
fn failed_operation_inserts_nothing() {
    let mut tape = Tape::new();
    let a = tape.from_elem(vec![3], 1);
    let b = tape.from_elem(vec![4], 1);
    assert!(a.add(&b, &mut tape).is_err());
    // The next successful node gets the index right after the leaves.
    let c = tape.from_elem(vec![3], 2);
    let s = a.add(&c, &mut tape).unwrap();
    assert_eq!(s.index, 3);
    assert_eq!(tape.value_of(&s), vec![3, 3, 3]);
}

#[test]
fn grad_tracking_propagates() {
    let mut tape = Tape::new();
    let a = tape.from_elem(vec![2], 1);
    let b = tape.from_elem(vec![2], 2);
    let c = tape.from_elem_grad(vec![2], 3);
    let no_grad = a.add(&b, &mut tape).unwrap();
    assert!(!no_grad.grad_exists());
    let with_grad = a.add(&c, &mut tape).unwrap();
    assert!(with_grad.grad_exists());
}

#[test]
fn addition_wraps_on_overflow() {
    let mut tape = Tape::new();
    let a = tape.from_elem(vec![1], i64::MAX);
    let b = tape.from_elem(vec![1], 1);
    let s = a.add(&b, &mut tape).unwrap();
    assert_eq!(tape.value_of(&s), vec![i64::MIN]);
}

#[test]
fn expression_handles_are_copies() {
    let mut tape = Tape::new();
    let x = tape.from_elem_grad(vec![1], 5);
    let y: Expression = x;
    assert_eq!(x.index, y.index);
    assert_eq!(x.output, y.output);
    assert!(y.grad_exists());
}
