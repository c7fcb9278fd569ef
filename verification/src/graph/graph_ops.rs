//! Operand bookkeeping shared by all graph operations.
//!
//! Every operation struct stores a [`ProtoOperation`]: the indices of its
//! operand variables.  The [`Operation`] trait exposes them through an
//! [`OperandIter`], a cursor over the operand list.

use vstd::prelude::*;

verus! {

/// The operand indices of an operation; used by all the operation
/// structs.
#[derive(Debug)]
pub struct ProtoOperation {
    /// Indices of the operand variables, in argument order.
    pub children: Vec<usize>,
}

/// An operation with no operands.
pub(crate) fn null_op() -> (r: ProtoOperation)
    ensures
        r.children@.len() == 0,
{
    ProtoOperation { children: Vec::new() }
}

/// An operation with one operand.
pub(crate) fn mono_op(x_id: usize) -> (r: ProtoOperation)
    ensures
        r.children@ =~= seq![x_id],
{
    let mut children: Vec<usize> = Vec::new();
    children.push(x_id);
    ProtoOperation { children }
}

/// An operation with two operands.
pub(crate) fn bi_op(x_id: usize, y_id: usize) -> (r: ProtoOperation)
    ensures
        r.children@ =~= seq![x_id, y_id],
{
    let mut children: Vec<usize> = Vec::new();
    children.push(x_id);
    children.push(y_id);
    ProtoOperation { children }
}

/// A unit of graph computation, characterized by the variables it reads.
pub trait Operation {
    /// The indices of the operand variables, in argument order.
    spec fn operand_ids(&self) -> Seq<usize>;

    /// A cursor over the operand indices, positioned at the start.
    fn iter<'a>(&'a self) -> (it: OperandIter<'a>)
        ensures
            it.operands@ == self.operand_ids(),
            it.op_num == 0,
    ;
}

/// Iterates over all the operands of an operation.
pub struct OperandIter<'a> {
    /// The operand indices being walked.
    pub operands: &'a [usize],
    /// Position of the next operand to hand out.
    pub op_num: usize,
}

impl<'a> OperandIter<'a> {
    /// Hands out the operand at the current position, if any, and
    /// advances the cursor.
    pub fn next(&mut self) -> (r: Option<usize>)
        requires
            old(self).op_num < usize::MAX,
        ensures
            final(self).operands == old(self).operands,
            final(self).op_num == old(self).op_num + 1,
            r == (if old(self).op_num < old(self).operands@.len() {
                Some(old(self).operands@[old(self).op_num as int])
            } else {
                None::<usize>
            }),
    {
        let mut ret: Option<usize> = None;
        if self.op_num < self.operands.len() {
            ret = Some(self.operands[self.op_num]);
        }
        self.op_num = self.op_num + 1;
        ret
    }
}

} // verus!
