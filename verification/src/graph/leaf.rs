//! The leaf graph operation: a variable with no operands.

use vstd::prelude::*;

use crate::graph::graph_ops::{null_op, Operation, OperandIter, ProtoOperation};

verus! {

/// A user-supplied input or parameter; it reads no other variable.
#[derive(Debug)]
pub struct Leaf {
    /// The empty operand list.
    pub prot_op: ProtoOperation,
}

impl Leaf {
    /// Records a leaf variable.
    pub fn new() -> (r: Leaf)
        ensures
            r.operand_ids().len() == 0,
    {
        Leaf { prot_op: null_op() }
    }
}

impl Operation for Leaf {
    open spec fn operand_ids(&self) -> Seq<usize> {
        self.prot_op.children@
    }

    fn iter<'a>(&'a self) -> (it: OperandIter<'a>) {
        let operands = self.prot_op.children.as_slice();
        OperandIter { operands, op_num: 0 }
    }
}

} // verus!
