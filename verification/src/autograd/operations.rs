//! Operator capabilities: the polymorphic units of computation.
//!
//! A forward operator recomputes one output buffer from its captured
//! operand buffers; a backward operator propagates a captured
//! output-gradient buffer into captured operand-gradient buffers,
//! accumulating into whatever they already hold.  Dispatch is over the
//! closed unions [`ForwardKind`] and [`BackwardKind`], so every operator
//! variant is checked exhaustively.

use vstd::prelude::*;

use crate::autograd::addition::{AdditionBackward, AdditionForward};
use crate::autograd::leaf::{LeafBackward, LeafForward};
use crate::autograd::matvecmul::{MatVecMulBackward, MatVecMulForward};
use crate::tensor::{datas, seq_add, Tensor};

verus! {

/// Accumulates buffer `src` elementwise into buffer `dst`, at the level of
/// the buffer-contents model.
pub open spec fn acc_into(vals: Seq<Seq<i64>>, dst: int, src: int) -> Seq<Seq<i64>> {
    vals.update(dst, seq_add(vals[dst], vals[src]))
}

/// A unit of forward computation over the buffer arena.
pub trait ForwardOp {
    /// The operator's captured handles are in bounds, mutually consistent
    /// in shape, and its output buffer is distinct from its inputs.
    spec fn fw_wf(&self, bufs: Seq<Tensor>) -> bool;

    /// Handle of the one buffer the operator writes.
    spec fn fw_out(&self) -> usize;

    /// The contents the output buffer holds after `forward`, as a function
    /// of the buffer contents before.
    spec fn fw_value(&self, bufs: Seq<Tensor>) -> Seq<i64>;

    /// Recomputes the output buffer from the captured operand buffers.
    /// Every other buffer is left untouched, and no buffer changes shape.
    fn forward(&self, bufs: &mut Vec<Tensor>)
        requires
            self.fw_wf(old(bufs)@),
        ensures
            final(bufs)@.len() == old(bufs)@.len(),
            self.fw_out() < old(bufs)@.len(),
            forall|h: int|
                0 <= h < old(bufs)@.len() && h != self.fw_out() ==> final(bufs)@[h] == old(
                    bufs,
                )@[h],
            final(bufs)@[self.fw_out() as int].shape@ == old(bufs)@[self.fw_out() as int].shape@,
            final(bufs)@[self.fw_out() as int].data@ == self.fw_value(old(bufs)@),
    ;
}

/// A unit of backward propagation over the buffer arena.
pub trait BackwardOp {
    /// The operator's captured handles are in bounds and length-consistent,
    /// and its written gradient buffers are distinct from the buffers it
    /// reads.
    spec fn bw_wf(&self, bufs: Seq<Tensor>) -> bool;

    /// The buffer contents after `backward` as a function of the buffer
    /// contents before.
    spec fn bw_vals(&self, vals: Seq<Seq<i64>>) -> Seq<Seq<i64>>;

    /// Propagates the captured output gradient into the captured operand
    /// gradient buffers, accumulating into their current contents.
    /// No buffer changes shape.
    fn backward(&self, bufs: &mut Vec<Tensor>)
        requires
            self.bw_wf(old(bufs)@),
        ensures
            final(bufs)@.len() == old(bufs)@.len(),
            forall|h: int|
                0 <= h < old(bufs)@.len() ==> final(bufs)@[h].shape@ == old(bufs)@[h].shape@,
            datas(final(bufs)@) == self.bw_vals(datas(old(bufs)@)),
    ;
}

/// The closed union of forward operators.
pub enum ForwardKind {
    Leaf(LeafForward),
    Addition(AdditionForward),
    MatVecMul(MatVecMulForward),
}

/// The closed union of backward operators.
pub enum BackwardKind {
    Leaf(LeafBackward),
    Addition(AdditionBackward),
    MatVecMul(MatVecMulBackward),
}

impl ForwardOp for ForwardKind {
    open spec fn fw_wf(&self, bufs: Seq<Tensor>) -> bool {
        match self {
            ForwardKind::Leaf(op) => op.fw_wf(bufs),
            ForwardKind::Addition(op) => op.fw_wf(bufs),
            ForwardKind::MatVecMul(op) => op.fw_wf(bufs),
        }
    }

    open spec fn fw_out(&self) -> usize {
        match self {
            ForwardKind::Leaf(op) => op.fw_out(),
            ForwardKind::Addition(op) => op.fw_out(),
            ForwardKind::MatVecMul(op) => op.fw_out(),
        }
    }

    open spec fn fw_value(&self, bufs: Seq<Tensor>) -> Seq<i64> {
        match self {
            ForwardKind::Leaf(op) => op.fw_value(bufs),
            ForwardKind::Addition(op) => op.fw_value(bufs),
            ForwardKind::MatVecMul(op) => op.fw_value(bufs),
        }
    }

    fn forward(&self, bufs: &mut Vec<Tensor>) {
        match self {
            ForwardKind::Leaf(op) => op.forward(bufs),
            ForwardKind::Addition(op) => op.forward(bufs),
            ForwardKind::MatVecMul(op) => op.forward(bufs),
        }
    }
}

impl BackwardOp for BackwardKind {
    open spec fn bw_wf(&self, bufs: Seq<Tensor>) -> bool {
        match self {
            BackwardKind::Leaf(op) => op.bw_wf(bufs),
            BackwardKind::Addition(op) => op.bw_wf(bufs),
            BackwardKind::MatVecMul(op) => op.bw_wf(bufs),
        }
    }

    open spec fn bw_vals(&self, vals: Seq<Seq<i64>>) -> Seq<Seq<i64>> {
        match self {
            BackwardKind::Leaf(op) => op.bw_vals(vals),
            BackwardKind::Addition(op) => op.bw_vals(vals),
            BackwardKind::MatVecMul(op) => op.bw_vals(vals),
        }
    }

    fn backward(&self, bufs: &mut Vec<Tensor>) {
        match self {
            BackwardKind::Leaf(op) => op.backward(bufs),
            BackwardKind::Addition(op) => op.backward(bufs),
            BackwardKind::MatVecMul(op) => op.backward(bufs),
        }
    }
}

} // verus!
