//! The sigmoid graph operation.

use vstd::prelude::*;

use crate::graph::graph_ops::{mono_op, Operation, OperandIter, ProtoOperation};

verus! {

/// Pointwise logistic sigmoid of one graph variable.
#[derive(Debug)]
pub struct Sigmoid {
    /// The single operand index.
    pub prot_op: ProtoOperation,
}

impl Sigmoid {
    /// Records a sigmoid applied to the variable `x_id`.
    pub fn new(x_id: usize) -> (r: Sigmoid)
        ensures
            r.operand_ids() =~= seq![x_id],
    {
        Sigmoid { prot_op: mono_op(x_id) }
    }
}

impl Operation for Sigmoid {
    open spec fn operand_ids(&self) -> Seq<usize> {
        self.prot_op.children@
    }

    fn iter<'a>(&'a self) -> (it: OperandIter<'a>) {
        let operands = self.prot_op.children.as_slice();
        OperandIter { operands, op_num: 0 }
    }
}

} // verus!
