//! Shape-and-strides views: the metadata half of a tensor.
//!
//! A [`TensorView`] records dimension sizes, row-major strides and an
//! offset, without owning any element storage.  Stride `i` is the product
//! of the dimensions after `i`, so the last stride is 1 and the first
//! covers a whole outermost slice.

use vstd::prelude::*;

use crate::tensor::{
    eq_usize_vecs, lemma_prod_from_le, lemma_prod_from_pos, prod, prod_from, shape_ok,
};

verus! {

/// A view over an n-dimensional tensor: sizes, row-major strides, offset.
#[derive(Debug)]
pub struct TensorView {
    /// Dimension sizes, outermost first.
    pub sizes: Vec<usize>,
    /// Row-major strides: stride `i` is the product of the sizes after `i`.
    pub strides: Vec<usize>,
    /// Offset of the first element inside the underlying storage.
    pub offset: usize,
}

impl TensorView {
    /// Dimensions are positive, the element count fits the machine, the
    /// strides are the row-major ones, and the view starts at offset 0.
    pub open spec fn wf(&self) -> bool {
        &&& shape_ok(self.sizes@)
        &&& prod(self.sizes@) <= usize::MAX
        &&& self.strides@.len() == self.sizes@.len()
        &&& (forall|i: int|
            0 <= i < self.sizes@.len() ==> #[trigger] self.strides@[i] == prod_from(
                self.sizes@,
                i + 1,
            ))
        &&& self.offset == 0
    }

    /// Two views are shape-compatible for elementwise operations iff
    /// their dimension sizes are identical.
    pub fn shares_dim(&self, other: &TensorView) -> (r: bool)
        ensures
            r == (self.sizes@ == other.sizes@),
    {
        eq_usize_vecs(&self.sizes, &other.sizes)
    }

    /// Whether a matrix-matrix product of `self` and `other` is
    /// dimensionally valid.
    pub fn can_mm(&self, other: &TensorView) -> (r: bool)
        ensures
            r == (self.sizes@.len() == 2 && other.sizes@.len() == 2 && self.sizes@[1]
                == other.sizes@[0]),
    {
        self.sizes.len() == 2 && other.sizes.len() == 2 && self.sizes[1] == other.sizes[0]
    }

    /// Whether a matrix-vector product of `self` and `other` is
    /// dimensionally valid.
    pub fn can_mv(&self, other: &TensorView) -> (r: bool)
        ensures
            r == (self.sizes@.len() == 2 && other.sizes@.len() == 1 && self.sizes@[1]
                == other.sizes@[0]),
    {
        self.sizes.len() == 2 && other.sizes.len() == 1 && self.sizes[1] == other.sizes[0]
    }

    /// Builds the canonical row-major view of the given dimensions.
    pub fn from_dimension(dim: &[usize]) -> (t: TensorView)
        requires
            shape_ok(dim@),
            prod(dim@) <= usize::MAX,
        ensures
            t.sizes@ == dim@,
            t.wf(),
    {
        let n = dim.len();
        let mut sizes: Vec<usize> = Vec::new();
        for i in 0..n
            invariant
                n == dim@.len(),
                sizes@ == dim@.subrange(0, i as int),
        {
            sizes.push(dim[i]);
            proof {
                assert(sizes@ =~= dim@.subrange(0, i + 1));
            }
        }
        proof {
            assert(sizes@ =~= dim@);
        }
        let mut strides: Vec<usize> = vec![0; n];
        let mut acc: usize = 1;
        let mut i: usize = n;
        proof {
            lemma_prod_from_le(dim@, n as int);
            lemma_prod_from_pos(dim@, n as int);
        }
        while i > 0
            invariant
                n == dim@.len(),
                0 <= i <= n,
                strides@.len() == n,
                shape_ok(dim@),
                prod(dim@) <= usize::MAX,
                acc == prod_from(dim@, i as int),
                forall|j: int| i <= j < n ==> #[trigger] strides@[j] == prod_from(dim@, j + 1),
            decreases i,
        {
            proof {
                lemma_prod_from_le(dim@, i - 1);
                lemma_prod_from_pos(dim@, i as int);
            }
            i = i - 1;
            strides[i] = acc;
            acc = dim[i] * acc;
        }
        TensorView { sizes, strides, offset: 0 }
    }

    /// The same as [`TensorView::from_dimension`]: a freshly laid-out
    /// view of the given dimensions, standing for zero-initialized
    /// storage.
    pub fn zeros_from_dimension(dim: &[usize]) -> (t: TensorView)
        requires
            shape_ok(dim@),
            prod(dim@) <= usize::MAX,
        ensures
            t.sizes@ == dim@,
            t.wf(),
    {
        TensorView::from_dimension(dim)
    }

    /// A fresh canonical view with the same dimensions as `self`.
    pub fn gen_from_same(&self) -> (t: TensorView)
        requires
            shape_ok(self.sizes@),
            prod(self.sizes@) <= usize::MAX,
        ensures
            t.sizes@ == self.sizes@,
            t.wf(),
    {
        TensorView::from_dimension(self.sizes.as_slice())
    }
}

} // verus!
