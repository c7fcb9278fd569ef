//! The user-facing expression handle.
//!
//! An [`Expression`] is a view over one tape node: the node's index, the
//! handle of its output buffer, and the handle of its gradient buffer if
//! the node tracks gradients.  Arithmetic methods construct operators,
//! run their forward computation immediately, insert a node, and return a
//! new expression aliasing the freshly allocated buffers.

use vstd::prelude::*;

use crate::autograd::addition::{AdditionBackward, AdditionForward};
use crate::autograd::matvecmul::{MatVecMulBackward, MatVecMulForward};
use crate::autograd::operations::{BackwardKind, ForwardKind};
use crate::autograd::tape::{
    fits, grad_ok, lemma_bw_step_lens, lemma_handles_in_bounds, lemma_node_bw_wf,
    lemma_tape_wf_data_stable, lemma_tape_wf_push_buf, node_wf, run_bw, tape_wf, Node, Tape,
    TapeError,
};
use crate::tensor::{add_vecs, copy_shape, copy_vec, datas, matvec, prod, seq_add, Tensor};

verus! {

/// A handle to one node's output (and optional gradient) buffer.
#[derive(Clone, Copy)]
pub struct Expression {
    /// Index of the owning node on the tape.
    pub index: usize,
    /// Handle of the node's output buffer.
    pub output: usize,
    /// Handle of the node's gradient buffer, if gradients are tracked.
    pub grad: Option<usize>,
}

impl Expression {
    /// The expression matches the tape: its index is in bounds and its
    /// buffer handles are exactly the ones its node owns.
    pub open spec fn valid(&self, t: &Tape) -> bool {
        &&& self.index < t.nodes@.len()
        &&& self.output == t.nodes@[self.index as int].out()
        &&& self.grad == t.nodes@[self.index as int].grad()
    }

    /// True iff a gradient buffer is attached.
    pub fn grad_exists(&self) -> (r: bool)
        ensures
            r == (self.grad is Some),
    {
        self.grad.is_some()
    }

    /// Elementwise addition.  Requires both operands' output shapes to be
    /// identical and returns a shape-mismatch error otherwise, with the
    /// tape untouched.  On success the elementwise wrapping sum is
    /// computed immediately into a fresh output buffer; if either operand
    /// tracks gradients, a fresh zero gradient buffer and an addition
    /// backward operator are attached; the node is registered and a new
    /// expression aliasing the fresh buffers is returned.
    pub fn add(&self, rhs: &Expression, tape: &mut Tape) -> (r: Result<Expression, TapeError>)
        requires
            old(tape).wf(),
            self.valid(old(tape)),
            rhs.valid(old(tape)),
        ensures
            final(tape).wf(),
            match r {
                Ok(e) => {
                    &&& old(tape).bufs@[self.output as int].shape@ == old(tape).bufs@[rhs.output as int].shape@
                    &&& e.index == old(tape).nodes@.len()
                    &&& e.output == old(tape).bufs@.len()
                    &&& e.grad == (if self.grad is Some || rhs.grad is Some {
                        Some((old(tape).bufs@.len() + 1) as usize)
                    } else {
                        None::<usize>
                    })
                    &&& e.valid(final(tape))
                    &&& final(tape).nodes@.len() == old(tape).nodes@.len() + 1
                    &&& final(tape).bufs@.len() == old(tape).bufs@.len() + (if e.grad is Some {
                        2int
                    } else {
                        1int
                    })
                    &&& (forall|i: int|
                        0 <= i < old(tape).nodes@.len() ==> final(tape).nodes@[i] == old(
                            tape,
                        ).nodes@[i])
                    &&& (forall|h: int|
                        0 <= h < old(tape).bufs@.len() ==> final(tape).bufs@[h] == old(
                            tape,
                        ).bufs@[h])
                    &&& final(tape).nodes@[e.index as int].operands@ == seq![
                        self.index,
                        rhs.index,
                    ]
                    &&& (final(tape).nodes@[e.index as int].fw matches ForwardKind::Addition(af)
                        && af.operands[0] == self.output && af.operands[1] == rhs.output
                        && af.output == e.output)
                    &&& (e.grad is Some ==> final(tape).nodes@[e.index as int].bw == Some(
                        BackwardKind::Addition(
                            AdditionBackward {
                                operands_grad: [self.grad, rhs.grad],
                                output_grad: (old(tape).bufs@.len() + 1) as usize,
                            },
                        ),
                    ))
                    &&& (e.grad is None ==> final(tape).nodes@[e.index as int].bw is None)
                    &&& final(tape).bufs@[e.output as int].shape@ == old(tape).bufs@[self.output as int].shape@
                    &&& final(tape).bufs@[e.output as int].data@ == seq_add(
                        old(tape).bufs@[self.output as int].data@,
                        old(tape).bufs@[rhs.output as int].data@,
                    )
                    &&& (e.grad matches Some(g) ==> final(tape).bufs@[g as int].shape@ == old(
                        tape,
                    ).bufs@[self.output as int].shape@ && final(tape).bufs@[g as int].data@
                        == Seq::new(
                        old(tape).bufs@[self.output as int].data@.len(),
                        |i: int| 0i64,
                    ))
                },
                Err(err) => {
                    &&& old(tape).bufs@[self.output as int].shape@ != old(tape).bufs@[rhs.output as int].shape@
                    &&& final(tape).nodes@ == old(tape).nodes@
                    &&& final(tape).bufs@ == old(tape).bufs@
                    &&& (err matches TapeError::ShapeMismatch { left, right } && left@ == old(
                        tape,
                    ).bufs@[self.output as int].shape@ && right@ == old(tape).bufs@[rhs.output as int].shape@)
                },
            },
    {
        let ghost t0 = *old(tape);
        proof {
            lemma_handles_in_bounds(tape.nodes@, tape.bufs@);
        }
        let lhs_h = self.output;
        let rhs_h = rhs.output;
        if !tape.bufs[lhs_h].same_shape(&tape.bufs[rhs_h]) {
            let left = copy_shape(&tape.bufs[lhs_h].shape);
            let right = copy_shape(&tape.bufs[rhs_h].shape);
            return Err(TapeError::ShapeMismatch { left, right });
        }
        let sum = add_vecs(&tape.bufs[lhs_h].data, &tape.bufs[rhs_h].data);
        let shape = copy_shape(&tape.bufs[lhs_h].shape);
        let out_h = tape.bufs.len();
        let t = Tensor::from_vec(shape, sum);
        proof {
            lemma_tape_wf_push_buf(tape.nodes@, tape.bufs@, t);
        }
        tape.bufs.push(t);
        let track = self.grad.is_some() || rhs.grad.is_some();
        let (bw, grad) = if track {
            let gshape = copy_shape(&tape.bufs[out_h].shape);
            let nel = tape.bufs[out_h].data.len();
            proof {
                assert(prod(gshape@) == nel);
            }
            let g = Tensor::from_elem(gshape, 0);
            let g_h = tape.bufs.len();
            proof {
                lemma_tape_wf_push_buf(tape.nodes@, tape.bufs@, g);
            }
            tape.bufs.push(g);
            (
                Some(
                    BackwardKind::Addition(
                        AdditionBackward {
                            operands_grad: [self.grad, rhs.grad],
                            output_grad: g_h,
                        },
                    ),
                ),
                Some(g_h),
            )
        } else {
            (None, None)
        };
        let mut operands: Vec<usize> = Vec::new();
        operands.push(self.index);
        operands.push(rhs.index);
        proof {
            assert(operands@ =~= seq![self.index, rhs.index]);
        }
        let node = Node {
            fw: ForwardKind::Addition(
                AdditionForward { operands: [lhs_h, rhs_h], output: out_h },
            ),
            bw,
            operands,
        };
        proof {
            let nodes = tape.nodes@;
            let bufs = tape.bufs@;
            assert(node.out() == out_h);
            assert(node_wf(nodes.push(node), bufs, nodes.len() as int)) by {
                assert(nodes.push(node)[self.index as int] == nodes[self.index as int]);
                assert(nodes.push(node)[rhs.index as int] == nodes[rhs.index as int]);
            }
            assert(grad_ok(nodes.push(node), bufs, nodes.len() as int));
            assert(fits(node, nodes, bufs));
        }
        let idx = tape.insert(node);
        Ok(Expression { index: idx, output: out_h, grad })
    }

    /// Matrix-vector product.  Requires `self` to be rank-2, `rhs` to be
    /// rank-1, and the matrix's column count to equal the vector's
    /// length; returns a shape-mismatch error otherwise, with the tape
    /// untouched.  On success the wrapping product is computed
    /// immediately into a fresh output buffer of shape `(rows,)`; if
    /// either operand tracks gradients, a fresh zero gradient buffer and
    /// a matrix-vector backward operator are attached.
    pub fn mv(&self, rhs: &Expression, tape: &mut Tape) -> (r: Result<Expression, TapeError>)
        requires
            old(tape).wf(),
            self.valid(old(tape)),
            rhs.valid(old(tape)),
        ensures
            final(tape).wf(),
            match r {
                Ok(e) => {
                    &&& mv_shapes_ok(
                        old(tape).bufs@[self.output as int].shape@,
                        old(tape).bufs@[rhs.output as int].shape@,
                    )
                    &&& e.index == old(tape).nodes@.len()
                    &&& e.output == old(tape).bufs@.len()
                    &&& e.grad == (if self.grad is Some || rhs.grad is Some {
                        Some((old(tape).bufs@.len() + 1) as usize)
                    } else {
                        None::<usize>
                    })
                    &&& e.valid(final(tape))
                    &&& final(tape).nodes@.len() == old(tape).nodes@.len() + 1
                    &&& final(tape).bufs@.len() == old(tape).bufs@.len() + (if e.grad is Some {
                        2int
                    } else {
                        1int
                    })
                    &&& (forall|i: int|
                        0 <= i < old(tape).nodes@.len() ==> final(tape).nodes@[i] == old(
                            tape,
                        ).nodes@[i])
                    &&& (forall|h: int|
                        0 <= h < old(tape).bufs@.len() ==> final(tape).bufs@[h] == old(
                            tape,
                        ).bufs@[h])
                    &&& final(tape).nodes@[e.index as int].operands@ == seq![
                        self.index,
                        rhs.index,
                    ]
                    &&& (final(tape).nodes@[e.index as int].fw matches ForwardKind::MatVecMul(mf)
                        && mf.matrix == self.output && mf.vector == rhs.output && mf.output
                        == e.output)
                    &&& (e.grad matches Some(g) ==> final(tape).nodes@[e.index as int].bw == Some(
                        BackwardKind::MatVecMul(
                            MatVecMulBackward {
                                matrix_out: self.output,
                                vector_out: rhs.output,
                                output_grad: g,
                                matrix_grad: self.grad,
                                vector_grad: rhs.grad,
                            },
                        ),
                    ))
                    &&& (e.grad is None ==> final(tape).nodes@[e.index as int].bw is None)
                    &&& final(tape).bufs@[e.output as int].shape@ =~= seq![
                        old(tape).bufs@[self.output as int].shape@[0],
                    ]
                    &&& final(tape).bufs@[e.output as int].data@ == matvec(
                        old(tape).bufs@[self.output as int].data@,
                        old(tape).bufs@[rhs.output as int].data@,
                        old(tape).bufs@[self.output as int].shape@[0] as int,
                        old(tape).bufs@[rhs.output as int].shape@[0] as int,
                    )
                    &&& (e.grad matches Some(g) ==> final(tape).bufs@[g as int].shape@
                        == final(tape).bufs@[e.output as int].shape@
                        && final(tape).bufs@[g as int].data@ == Seq::new(
                        old(tape).bufs@[self.output as int].shape@[0] as nat,
                        |i: int| 0i64,
                    ))
                },
                Err(err) => {
                    &&& !mv_shapes_ok(
                        old(tape).bufs@[self.output as int].shape@,
                        old(tape).bufs@[rhs.output as int].shape@,
                    )
                    &&& final(tape).nodes@ == old(tape).nodes@
                    &&& final(tape).bufs@ == old(tape).bufs@
                    &&& (err matches TapeError::ShapeMismatch { left, right } && left@ == old(
                        tape,
                    ).bufs@[self.output as int].shape@ && right@ == old(tape).bufs@[rhs.output as int].shape@)
                },
            },
    {
        let ghost t0 = *old(tape);
        proof {
            lemma_handles_in_bounds(tape.nodes@, tape.bufs@);
        }
        let lhs_h = self.output;
        let rhs_h = rhs.output;
        let ranks_ok = tape.bufs[lhs_h].shape.len() == 2 && tape.bufs[rhs_h].shape.len() == 1;
        if !(ranks_ok && tape.bufs[lhs_h].shape[1] == tape.bufs[rhs_h].shape[0]) {
            let left = copy_shape(&tape.bufs[lhs_h].shape);
            let right = copy_shape(&tape.bufs[rhs_h].shape);
            return Err(TapeError::ShapeMismatch { left, right });
        }
        let fwop = MatVecMulForward::new(lhs_h, rhs_h, &mut tape.bufs);
        let out_h = fwop.output;
        proof {
            assert(tape.bufs@ =~= t0.bufs@.push(tape.bufs@[t0.bufs@.len() as int]));
            lemma_tape_wf_push_buf(t0.nodes@, t0.bufs@, tape.bufs@[t0.bufs@.len() as int]);
        }
        let track = self.grad.is_some() || rhs.grad.is_some();
        let (bw, grad) = if track {
            let gshape = copy_shape(&tape.bufs[out_h].shape);
            let nel = tape.bufs[out_h].data.len();
            proof {
                assert(prod(gshape@) == nel);
            }
            let g = Tensor::from_elem(gshape, 0);
            let g_h = tape.bufs.len();
            proof {
                lemma_tape_wf_push_buf(tape.nodes@, tape.bufs@, g);
            }
            tape.bufs.push(g);
            (
                Some(
                    BackwardKind::MatVecMul(
                        MatVecMulBackward {
                            matrix_out: lhs_h,
                            vector_out: rhs_h,
                            output_grad: g_h,
                            matrix_grad: self.grad,
                            vector_grad: rhs.grad,
                        },
                    ),
                ),
                Some(g_h),
            )
        } else {
            (None, None)
        };
        let mut operands: Vec<usize> = Vec::new();
        operands.push(self.index);
        operands.push(rhs.index);
        proof {
            assert(operands@ =~= seq![self.index, rhs.index]);
        }
        let node = Node { fw: ForwardKind::MatVecMul(fwop), bw, operands };
        proof {
            let nodes = tape.nodes@;
            let bufs = tape.bufs@;
            assert(node.out() == out_h);
            assert(node_wf(nodes.push(node), bufs, nodes.len() as int)) by {
                assert(nodes.push(node)[self.index as int] == nodes[self.index as int]);
                assert(nodes.push(node)[rhs.index as int] == nodes[rhs.index as int]);
            }
            assert(grad_ok(nodes.push(node), bufs, nodes.len() as int));
            assert(fits(node, nodes, bufs));
        }
        let idx = tape.insert(node);
        Ok(Expression { index: idx, output: out_h, grad })
    }

    /// Seeds the terminal node's gradient buffer and replays every node's
    /// backward operator in descending index order.  Legal only when this
    /// expression's node is the last-inserted one: on any other node it
    /// fails with a not-terminal error and the tape is untouched.  A
    /// terminal expression without a gradient buffer is a no-op; a seed
    /// of the wrong shape is a shape-mismatch error.
    pub fn backward(&self, seed: &Tensor, tape: &mut Tape) -> (r: Result<(), TapeError>)
        requires
            old(tape).wf(),
            self.valid(old(tape)),
            seed.wf(),
        ensures
            final(tape).wf(),
            final(tape).nodes@ == old(tape).nodes@,
            final(tape).bufs@.len() == old(tape).bufs@.len(),
            forall|h: int|
                0 <= h < old(tape).bufs@.len() ==> final(tape).bufs@[h].shape@ == old(
                    tape,
                ).bufs@[h].shape@,
            match r {
                Ok(_) => {
                    &&& self.index == old(tape).nodes@.len() - 1
                    &&& match self.grad {
                        Some(g) => {
                            &&& seed.shape@ == old(tape).bufs@[g as int].shape@
                            &&& datas(final(tape).bufs@) == run_bw(
                                old(tape).nodes@,
                                datas(old(tape).bufs@).update(g as int, seed.data@),
                                old(tape).nodes@.len() - 1,
                            )
                        },
                        None => final(tape).bufs@ == old(tape).bufs@,
                    }
                },
                Err(err) => {
                    &&& final(tape).bufs@ == old(tape).bufs@
                    &&& match err {
                        TapeError::NotTerminalNode { index } => {
                            &&& index == self.index
                            &&& self.index != old(tape).nodes@.len() - 1
                        },
                        TapeError::ShapeMismatch { left, right } => {
                            &&& self.index == old(tape).nodes@.len() - 1
                            &&& (self.grad matches Some(g) && left@ == old(
                                tape,
                            ).bufs@[g as int].shape@ && right@ == seed.shape@ && seed.shape@
                                != old(tape).bufs@[g as int].shape@)
                        },
                    }
                },
            },
    {
        let ghost t0 = *old(tape);
        let n = tape.nodes.len();
        if self.index != n - 1 {
            return Err(TapeError::NotTerminalNode { index: self.index });
        }
        match self.grad {
            None => Ok(()),
            Some(g) => {
                proof {
                    assert(grad_ok(tape.nodes@, tape.bufs@, self.index as int));
                }
                if !tape.bufs[g].same_shape(seed) {
                    let left = copy_shape(&tape.bufs[g].shape);
                    let right = copy_shape(&seed.shape);
                    return Err(TapeError::ShapeMismatch { left, right });
                }
                let sd = copy_vec(&seed.data);
                let dst = &mut tape.bufs[g];
                dst.data = sd;
                proof {
                    assert(tape.bufs@[g as int].wf());
                    lemma_tape_wf_data_stable(t0.nodes@, t0.bufs@, tape.bufs@);
                    assert(datas(tape.bufs@) =~= datas(t0.bufs@).update(g as int, seed.data@));
                }
                let ghost nodes0 = tape.nodes@;
                let ghost seeded = datas(tape.bufs@);
                let ghost b1 = tape.bufs@;
                let mut i: usize = n;
                while i > 0
                    invariant
                        tape.nodes@ == nodes0,
                        n == nodes0.len(),
                        0 <= i <= n,
                        tape_wf(nodes0, tape.bufs@),
                        tape.bufs@.len() == b1.len(),
                        forall|h: int|
                            0 <= h < b1.len() ==> (#[trigger] tape.bufs@[h]).shape@ == b1[h].shape@,
                        run_bw(nodes0, datas(tape.bufs@), i as int - 1) == run_bw(
                            nodes0,
                            seeded,
                            n as int - 1,
                        ),
                    decreases i,
                {
                    i = i - 1;
                    let ghost cur = tape.bufs@;
                    proof {
                        lemma_node_bw_wf(nodes0, tape.bufs@, i as int);
                    }
                    let node = &tape.nodes[i];
                    node.backward(&mut tape.bufs);
                    proof {
                        lemma_bw_step_lens(nodes0[i as int], cur);
                        assert(datas(tape.bufs@) == nodes0[i as int].bw_step(datas(cur)));
                        assert forall|h: int|
                            0 <= h < b1.len() implies (#[trigger] tape.bufs@[h]).wf() by {
                            assert(tape.bufs@[h].data@ == datas(tape.bufs@)[h]);
                            assert(datas(tape.bufs@)[h].len() == datas(cur)[h].len());
                            assert(cur[h].wf());
                        }
                        lemma_tape_wf_data_stable(nodes0, cur, tape.bufs@);
                        assert(run_bw(nodes0, datas(cur), i as int) == run_bw(
                            nodes0,
                            datas(tape.bufs@),
                            i as int - 1,
                        ));
                    }
                }
                Ok(())
            },
        }
    }
}

/// The dimensional contract of the matrix-vector product: a rank-2
/// matrix, a rank-1 vector, and matching inner dimensions.
pub open spec fn mv_shapes_ok(matrix: Seq<usize>, vector: Seq<usize>) -> bool {
    &&& matrix.len() == 2
    &&& vector.len() == 1
    &&& matrix[1] == vector[0]
}

} // verus!
