//! The matrix-vector product graph operation.

use vstd::prelude::*;

use crate::graph::graph_ops::{bi_op, Operation, OperandIter, ProtoOperation};

verus! {

/// Matrix-vector product of a rank-2 and a rank-1 graph variable.
#[derive(Debug)]
pub struct MatVecMul {
    /// The two operand indices.
    pub prot_op: ProtoOperation,
}

impl MatVecMul {
    /// Records a matrix-vector product of the variables `x_id` and `y_id`.
    pub fn new(x_id: usize, y_id: usize) -> (r: MatVecMul)
        ensures
            r.operand_ids() =~= seq![x_id, y_id],
    {
        MatVecMul { prot_op: bi_op(x_id, y_id) }
    }
}

impl Operation for MatVecMul {
    open spec fn operand_ids(&self) -> Seq<usize> {
        self.prot_op.children@
    }

    fn iter<'a>(&'a self) -> (it: OperandIter<'a>) {
        let operands = self.prot_op.children.as_slice();
        OperandIter { operands, op_num: 0 }
    }
}

} // verus!
