//! The elementwise-addition graph operation.

use vstd::prelude::*;

use crate::graph::graph_ops::{bi_op, Operation, OperandIter, ProtoOperation};

verus! {

/// Elementwise sum of two graph variables of identical shape.
#[derive(Debug)]
pub struct Addition {
    /// The two operand indices.
    pub prot_op: ProtoOperation,
}

impl Addition {
    /// Records an addition of the variables `x_id` and `y_id`.
    pub fn new(x_id: usize, y_id: usize) -> (r: Addition)
        ensures
            r.operand_ids() =~= seq![x_id, y_id],
    {
        Addition { prot_op: bi_op(x_id, y_id) }
    }
}

impl Operation for Addition {
    open spec fn operand_ids(&self) -> Seq<usize> {
        self.prot_op.children@
    }

    fn iter<'a>(&'a self) -> (it: OperandIter<'a>) {
        let operands = self.prot_op.children.as_slice();
        OperandIter { operands, op_num: 0 }
    }
}

} // verus!
