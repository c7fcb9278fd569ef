//! The hyperbolic-tangent graph operation.

use vstd::prelude::*;

use crate::graph::graph_ops::{mono_op, Operation, OperandIter, ProtoOperation};

verus! {

/// Pointwise hyperbolic tangent of one graph variable.
#[derive(Debug)]
pub struct Tanh {
    /// The single operand index.
    pub prot_op: ProtoOperation,
}

impl Tanh {
    /// Records a hyperbolic tangent applied to the variable `x_id`.
    pub fn new(x_id: usize) -> (r: Tanh)
        ensures
            r.operand_ids() =~= seq![x_id],
    {
        Tanh { prot_op: mono_op(x_id) }
    }
}

impl Operation for Tanh {
    open spec fn operand_ids(&self) -> Seq<usize> {
        self.prot_op.children@
    }

    fn iter<'a>(&'a self) -> (it: OperandIter<'a>) {
        let operands = self.prot_op.children.as_slice();
        OperandIter { operands, op_num: 0 }
    }
}

} // verus!
