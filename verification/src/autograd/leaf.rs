//! The Leaf operator: a user-supplied input or parameter.
//!
//! A leaf has no operands, so replaying it recomputes nothing and
//! propagating a gradient through it writes nowhere: both directions are
//! proved to leave every buffer unchanged.

use vstd::prelude::*;

use crate::autograd::operations::{BackwardOp, ForwardOp};
use crate::tensor::{datas, prod, shape_ok, Tensor};

verus! {

/// Forward operator of a leaf node; it owns the leaf's value buffer.
pub struct LeafForward {
    /// Handle of the value buffer.
    pub value: usize,
}

/// Backward operator of a gradient-tracked leaf node; it owns the leaf's
/// gradient buffer, which simply holds whatever a backward pass
/// accumulates into it.
pub struct LeafBackward {
    /// Handle of the gradient buffer.
    pub grad: usize,
}

impl LeafForward {
    /// Allocates a zero-filled value buffer of the given shape in the
    /// arena and returns the operator owning it together with its handle.
    pub fn zeros(shape: Vec<usize>, bufs: &mut Vec<Tensor>) -> (r: (LeafForward, usize))
        requires
            shape_ok(shape@),
            prod(shape@) <= usize::MAX,
        ensures
            final(bufs)@.len() == old(bufs)@.len() + 1,
            forall|h: int| 0 <= h < old(bufs)@.len() ==> final(bufs)@[h] == old(bufs)@[h],
            r.1 == old(bufs)@.len(),
            r.0.value == r.1,
            final(bufs)@[r.1 as int].shape@ == shape@,
            final(bufs)@[r.1 as int].data@ == Seq::new(prod(shape@) as nat, |i: int| 0i64),
            final(bufs)@[r.1 as int].wf(),
    {
        let handle = bufs.len();
        let t = Tensor::zeros(shape);
        bufs.push(t);
        (LeafForward { value: handle }, handle)
    }
}

/// Leaf no-op: any pair of buffer states related by a leaf's forward
/// contract has identical contents and shapes everywhere — a leaf's
/// forward operator mutates no buffer, its own included.  (Its backward
/// operator states the same directly: its step is the identity.)
pub proof fn lemma_leaf_forward_noop(op: LeafForward, pre: Seq<Tensor>, post: Seq<Tensor>)
    requires
        post.len() == pre.len(),
        op.fw_out() < pre.len(),
        forall|h: int| 0 <= h < pre.len() && h != op.fw_out() ==> post[h] == pre[h],
        post[op.fw_out() as int].shape@ == pre[op.fw_out() as int].shape@,
        post[op.fw_out() as int].data@ == op.fw_value(pre),
    ensures
        datas(post) == datas(pre),
        forall|h: int| 0 <= h < pre.len() ==> (#[trigger] post[h]).shape@ == pre[h].shape@,
{
    assert(datas(post) =~= datas(pre));
}

impl ForwardOp for LeafForward {
    open spec fn fw_wf(&self, bufs: Seq<Tensor>) -> bool {
        self.value < bufs.len()
    }

    open spec fn fw_out(&self) -> usize {
        self.value
    }

    /// A leaf's value is whatever its buffer currently holds.
    open spec fn fw_value(&self, bufs: Seq<Tensor>) -> Seq<i64> {
        bufs[self.value as int].data@
    }

    /// Replaying a leaf mutates no buffer at all.
    fn forward(&self, _bufs: &mut Vec<Tensor>) {
    }
}

impl BackwardOp for LeafBackward {
    open spec fn bw_wf(&self, bufs: Seq<Tensor>) -> bool {
        self.grad < bufs.len()
    }

    /// Propagating through a leaf leaves every buffer's contents unchanged.
    open spec fn bw_vals(&self, vals: Seq<Seq<i64>>) -> Seq<Seq<i64>> {
        vals
    }

    /// A leaf's backward step mutates no buffer at all.
    fn backward(&self, _bufs: &mut Vec<Tensor>) {
    }
}

} // verus!
