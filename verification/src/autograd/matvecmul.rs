//! The matrix-vector product operator.
//!
//! Forward overwrites the output buffer with the product of the captured
//! matrix and vector buffers.  Backward accumulates into the matrix
//! gradient the outer product of the output gradient with the input
//! vector, and into the vector gradient the transposed matrix applied to
//! the output gradient.

use vstd::prelude::*;

use crate::autograd::operations::{BackwardOp, ForwardOp};
use crate::tensor::{
    copy_vec, datas, lemma_prod_rank1, lemma_prod_rank2, matvec, matvec_mul, outer_acc,
    outer_acc_spec, tmv_acc, tmv_acc_spec, Tensor,
};

verus! {

/// Forward operator of a matrix-vector product node.
pub struct MatVecMulForward {
    /// Handle of the rank-2 matrix value buffer.
    pub matrix: usize,
    /// Handle of the rank-1 vector value buffer.
    pub vector: usize,
    /// Handle of the rank-1 output value buffer.
    pub output: usize,
}

/// Backward operator of a matrix-vector product node.
pub struct MatVecMulBackward {
    /// Handle of the matrix value buffer, reread during backward.
    pub matrix_out: usize,
    /// Handle of the vector value buffer, reread during backward.
    pub vector_out: usize,
    /// Handle of the output gradient buffer.
    pub output_grad: usize,
    /// Handle of the matrix gradient buffer, if the matrix tracks gradients.
    pub matrix_grad: Option<usize>,
    /// Handle of the vector gradient buffer, if the vector tracks gradients.
    pub vector_grad: Option<usize>,
}

impl MatVecMulForward {
    /// Captures a matrix and a vector buffer, eagerly computes their
    /// product into a freshly allocated output buffer, and returns the
    /// operator owning all three handles.
    pub fn new(matrix: usize, vector: usize, bufs: &mut Vec<Tensor>) -> (op: MatVecMulForward)
        requires
            matrix < old(bufs)@.len(),
            vector < old(bufs)@.len(),
            old(bufs)@[matrix as int].wf(),
            old(bufs)@[vector as int].wf(),
            old(bufs)@[matrix as int].shape@.len() == 2,
            old(bufs)@[vector as int].shape@.len() == 1,
            old(bufs)@[matrix as int].shape@[1] == old(bufs)@[vector as int].shape@[0],
        ensures
            final(bufs)@.len() == old(bufs)@.len() + 1,
            forall|h: int| 0 <= h < old(bufs)@.len() ==> final(bufs)@[h] == old(bufs)@[h],
            op.matrix == matrix,
            op.vector == vector,
            op.output == old(bufs)@.len(),
            final(bufs)@[op.output as int].shape@ =~= seq![old(bufs)@[matrix as int].shape@[0]],
            final(bufs)@[op.output as int].data@ == matvec(
                old(bufs)@[matrix as int].data@,
                old(bufs)@[vector as int].data@,
                old(bufs)@[matrix as int].shape@[0] as int,
                old(bufs)@[vector as int].shape@[0] as int,
            ),
            final(bufs)@[op.output as int].wf(),
    {
        let rows = bufs[matrix].shape[0];
        let cols = bufs[vector].data.len();
        proof {
            lemma_prod_rank2(bufs@[matrix as int].shape@);
            lemma_prod_rank1(bufs@[vector as int].shape@);
        }
        let data = matvec_mul(&bufs[matrix].data, &bufs[vector].data, rows, cols);
        let mut oshape: Vec<usize> = Vec::new();
        oshape.push(rows);
        proof {
            lemma_prod_rank1(oshape@);
            assert(oshape@ =~= seq![old(bufs)@[matrix as int].shape@[0]]);
        }
        let handle = bufs.len();
        let t = Tensor::from_vec(oshape, data);
        bufs.push(t);
        MatVecMulForward { matrix, vector, output: handle }
    }

    /// Matrix row count: the first dimension of the output buffer.
    pub open spec fn rows(&self, bufs: Seq<Tensor>) -> int {
        bufs[self.output as int].shape@[0] as int
    }

    /// Matrix column count: the length of the vector buffer.
    pub open spec fn cols(&self, bufs: Seq<Tensor>) -> int {
        bufs[self.vector as int].data@.len() as int
    }
}

impl ForwardOp for MatVecMulForward {
    open spec fn fw_wf(&self, bufs: Seq<Tensor>) -> bool {
        &&& self.matrix < bufs.len()
        &&& self.vector < bufs.len()
        &&& self.output < bufs.len()
        &&& self.output != self.matrix
        &&& self.output != self.vector
        &&& bufs[self.matrix as int].wf()
        &&& bufs[self.vector as int].wf()
        &&& bufs[self.matrix as int].shape@.len() == 2
        &&& bufs[self.vector as int].shape@.len() == 1
        &&& bufs[self.output as int].shape@.len() == 1
        &&& bufs[self.matrix as int].shape@[1] == bufs[self.vector as int].shape@[0]
        &&& bufs[self.matrix as int].shape@[0] == bufs[self.output as int].shape@[0]
    }

    open spec fn fw_out(&self) -> usize {
        self.output
    }

    /// The wrapping matrix-vector product of the captured buffers.
    open spec fn fw_value(&self, bufs: Seq<Tensor>) -> Seq<i64> {
        matvec(
            bufs[self.matrix as int].data@,
            bufs[self.vector as int].data@,
            self.rows(bufs),
            self.cols(bufs),
        )
    }

    fn forward(&self, bufs: &mut Vec<Tensor>) {
        let rows = bufs[self.output].shape[0];
        let cols = bufs[self.vector].data.len();
        proof {
            lemma_prod_rank2(bufs@[self.matrix as int].shape@);
            lemma_prod_rank1(bufs@[self.vector as int].shape@);
        }
        let s = matvec_mul(&bufs[self.matrix].data, &bufs[self.vector].data, rows, cols);
        let out = &mut bufs[self.output];
        out.data = s;
    }
}

impl MatVecMulBackward {
    /// Matrix row count: the length of the output gradient buffer.
    pub open spec fn rows(&self, vals: Seq<Seq<i64>>) -> int {
        vals[self.output_grad as int].len() as int
    }

    /// Matrix column count: the length of the vector value buffer.
    pub open spec fn cols(&self, vals: Seq<Seq<i64>>) -> int {
        vals[self.vector_out as int].len() as int
    }
}

impl BackwardOp for MatVecMulBackward {
    open spec fn bw_wf(&self, bufs: Seq<Tensor>) -> bool {
        let vals = datas(bufs);
        &&& self.matrix_out < bufs.len()
        &&& self.vector_out < bufs.len()
        &&& self.output_grad < bufs.len()
        &&& vals[self.matrix_out as int].len() == self.rows(vals) * self.cols(vals)
        &&& (match self.matrix_grad {
            Some(mh) => {
                &&& mh < bufs.len()
                &&& mh != self.output_grad
                &&& mh != self.vector_out
                &&& mh != self.matrix_out
                &&& vals[mh as int].len() == self.rows(vals) * self.cols(vals)
            },
            None => true,
        })
        &&& (match self.vector_grad {
            Some(vh) => {
                &&& vh < bufs.len()
                &&& vh != self.output_grad
                &&& vh != self.vector_out
                &&& vh != self.matrix_out
                &&& vals[vh as int].len() == self.cols(vals)
            },
            None => true,
        })
    }

    /// Accumulates the outer product of the output gradient and the input
    /// vector into the matrix gradient, then the transposed matrix applied
    /// to the output gradient into the vector gradient, wherever those
    /// gradient buffers exist.
    open spec fn bw_vals(&self, vals: Seq<Seq<i64>>) -> Seq<Seq<i64>> {
        let og = self.output_grad as int;
        let v1 = match self.matrix_grad {
            Some(mh) => vals.update(
                mh as int,
                outer_acc_spec(vals[mh as int], vals[og], vals[self.vector_out as int]),
            ),
            None => vals,
        };
        match self.vector_grad {
            Some(vh) => v1.update(
                vh as int,
                tmv_acc_spec(v1[vh as int], v1[self.matrix_out as int], v1[og]),
            ),
            None => v1,
        }
    }

    fn backward(&self, bufs: &mut Vec<Tensor>) {
        let ghost pre = bufs@;
        let gout = copy_vec(&bufs[self.output_grad].data);
        if let Some(mh) = self.matrix_grad {
            let vout = copy_vec(&bufs[self.vector_out].data);
            let dst = &mut bufs[mh];
            outer_acc(&mut dst.data, &gout, &vout);
        }
        proof {
            let vals = datas(pre);
            let v1 = match self.matrix_grad {
                Some(mh) => vals.update(
                    mh as int,
                    outer_acc_spec(
                        vals[mh as int],
                        vals[self.output_grad as int],
                        vals[self.vector_out as int],
                    ),
                ),
                None => vals,
            };
            assert(datas(bufs@) =~= v1);
        }
        let ghost mid = bufs@;
        if let Some(vh) = self.vector_grad {
            let mout = copy_vec(&bufs[self.matrix_out].data);
            let dst = &mut bufs[vh];
            tmv_acc(&mut dst.data, &mout, &gout);
        }
        proof {
            let vals1 = datas(mid);
            let v2 = match self.vector_grad {
                Some(vh) => vals1.update(
                    vh as int,
                    tmv_acc_spec(
                        vals1[vh as int],
                        vals1[self.matrix_out as int],
                        vals1[self.output_grad as int],
                    ),
                ),
                None => vals1,
            };
            assert(datas(bufs@) =~= v2);
            assert(datas(bufs@) =~= self.bw_vals(datas(pre)));
        }
    }
}

} // verus!
