//! The elementwise-addition operator.
//!
//! Forward overwrites the output buffer with the elementwise wrapping sum
//! of the two operand buffers.  Backward accumulates the output gradient
//! into whichever operand gradient buffers exist; when both operands share
//! one gradient buffer (a value added to itself) it is accumulated twice.

use vstd::prelude::*;

use crate::autograd::operations::{acc_into, BackwardOp, ForwardOp};
use crate::tensor::{acc_vecs, add_vecs, copy_vec, datas, seq_add, Tensor};

verus! {

/// Forward operator of an addition node.
pub struct AdditionForward {
    /// Handles of the two operand value buffers.
    pub operands: [usize; 2],
    /// Handle of the output value buffer.
    pub output: usize,
}

/// Backward operator of an addition node.
pub struct AdditionBackward {
    /// Handles of the operand gradient buffers, where they exist.
    pub operands_grad: [Option<usize>; 2],
    /// Handle of the output gradient buffer.
    pub output_grad: usize,
}

impl ForwardOp for AdditionForward {
    open spec fn fw_wf(&self, bufs: Seq<Tensor>) -> bool {
        &&& self.operands[0] < bufs.len()
        &&& self.operands[1] < bufs.len()
        &&& self.output < bufs.len()
        &&& self.output != self.operands[0]
        &&& self.output != self.operands[1]
        &&& bufs[self.operands[0] as int].wf()
        &&& bufs[self.operands[1] as int].wf()
        &&& bufs[self.operands[0] as int].shape@ == bufs[self.output as int].shape@
        &&& bufs[self.operands[1] as int].shape@ == bufs[self.output as int].shape@
    }

    open spec fn fw_out(&self) -> usize {
        self.output
    }

    /// The elementwise wrapping sum of the operand buffers.
    open spec fn fw_value(&self, bufs: Seq<Tensor>) -> Seq<i64> {
        seq_add(bufs[self.operands[0] as int].data@, bufs[self.operands[1] as int].data@)
    }

    fn forward(&self, bufs: &mut Vec<Tensor>) {
        let a = self.operands[0];
        let b = self.operands[1];
        let s = add_vecs(&bufs[a].data, &bufs[b].data);
        let out = &mut bufs[self.output];
        out.data = s;
    }
}

impl AdditionBackward {
    /// An operand gradient slot, if present, is in bounds, distinct from
    /// the output gradient, and of the output gradient's length.
    pub open spec fn grad_slot_ok(&self, slot: Option<usize>, bufs: Seq<Tensor>) -> bool {
        match slot {
            Some(h) => {
                &&& h < bufs.len()
                &&& h != self.output_grad
                &&& bufs[h as int].data@.len() == bufs[self.output_grad as int].data@.len()
            },
            None => true,
        }
    }
}

impl BackwardOp for AdditionBackward {
    open spec fn bw_wf(&self, bufs: Seq<Tensor>) -> bool {
        &&& self.output_grad < bufs.len()
        &&& self.grad_slot_ok(self.operands_grad[0], bufs)
        &&& self.grad_slot_ok(self.operands_grad[1], bufs)
    }

    /// Accumulates the output gradient into the first operand gradient,
    /// then into the second, wherever they exist.
    open spec fn bw_vals(&self, vals: Seq<Seq<i64>>) -> Seq<Seq<i64>> {
        let og = self.output_grad as int;
        let v1 = match self.operands_grad[0] {
            Some(h) => acc_into(vals, h as int, og),
            None => vals,
        };
        match self.operands_grad[1] {
            Some(h) => acc_into(v1, h as int, og),
            None => v1,
        }
    }

    fn backward(&self, bufs: &mut Vec<Tensor>) {
        let ghost pre = bufs@;
        let gout = copy_vec(&bufs[self.output_grad].data);
        if let Some(h) = self.operands_grad[0] {
            let dst = &mut bufs[h];
            acc_vecs(&mut dst.data, &gout);
        }
        proof {
            let v1 = match self.operands_grad[0] {
                Some(h) => acc_into(datas(pre), h as int, self.output_grad as int),
                None => datas(pre),
            };
            assert(datas(bufs@) =~= v1);
        }
        let ghost mid = bufs@;
        if let Some(h) = self.operands_grad[1] {
            let dst = &mut bufs[h];
            acc_vecs(&mut dst.data, &gout);
        }
        proof {
            let v2 = match self.operands_grad[1] {
                Some(h) => acc_into(datas(mid), h as int, self.output_grad as int),
                None => datas(mid),
            };
            assert(datas(bufs@) =~= v2);
            assert(datas(bufs@) =~= self.bw_vals(datas(pre)));
        }
    }
}

} // verus!
