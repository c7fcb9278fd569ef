//! The matrix-matrix product graph operation.

use vstd::prelude::*;

use crate::graph::graph_ops::{bi_op, Operation, OperandIter, ProtoOperation};

verus! {

/// Matrix-matrix product of two rank-2 graph variables.
#[derive(Debug)]
pub struct MatMatMul {
    /// The two operand indices.
    pub prot_op: ProtoOperation,
}

impl MatMatMul {
    /// Records a matrix-matrix product of the variables `x_id` and `y_id`.
    pub fn new(x_id: usize, y_id: usize) -> (r: MatMatMul)
        ensures
            r.operand_ids() =~= seq![x_id, y_id],
    {
        MatMatMul { prot_op: bi_op(x_id, y_id) }
    }
}

impl Operation for MatMatMul {
    open spec fn operand_ids(&self) -> Seq<usize> {
        self.prot_op.children@
    }

    fn iter<'a>(&'a self) -> (it: OperandIter<'a>) {
        let operands = self.prot_op.children.as_slice();
        OperandIter { operands, op_num: 0 }
    }
}

} // verus!
