//! Tensor buffers: owned n-dimensional integer arrays with a fixed shape.
//!
//! A [`Tensor`] stores its elements contiguously in row-major order, so the
//! buffer length always equals the product of the dimension sizes.  The
//! executable kernels in this module (elementwise sum, matrix-vector
//! product, gradient accumulation) are each proved against a direct
//! sequence-level statement from [`crate::num`].

use vstd::prelude::*;

use crate::num::{dot, dot_prefix, wadd, wmul, wrap_add, wrap_mul};

verus! {

/// Product of the dimension sizes from position `i` on.
pub open spec fn prod_from(s: Seq<usize>, i: int) -> int
    decreases s.len() - i,
{
    if i < 0 || i >= s.len() {
        1
    } else {
        s[i] * prod_from(s, i + 1)
    }
}

/// Number of elements a shape calls for: the product of its dimensions.
pub open spec fn prod(s: Seq<usize>) -> int {
    prod_from(s, 0)
}

/// A shape is a sequence of positive dimension sizes.
pub open spec fn shape_ok(s: Seq<usize>) -> bool {
    forall|k: int| 0 <= k < s.len() ==> s[k] >= 1
}

/// Elementwise wrapping sum of two equal-length element sequences.
pub open spec fn seq_add(a: Seq<i64>, b: Seq<i64>) -> Seq<i64> {
    Seq::new(a.len(), |i: int| wrap_add(a[i], b[i]))
}

/// Row `i` of a row-major `rows x cols` matrix stored flat in `m`.
pub open spec fn mat_row(m: Seq<i64>, cols: int, i: int) -> Seq<i64> {
    m.subrange(i * cols, i * cols + cols)
}

/// Column `j` of a row-major `rows x cols` matrix stored flat in `m`.
pub open spec fn mat_col(m: Seq<i64>, rows: int, cols: int, j: int) -> Seq<i64> {
    Seq::new(rows as nat, |i: int| m[i * cols + j])
}

/// Matrix-vector product of a flat `rows x cols` matrix and a vector.
pub open spec fn matvec(m: Seq<i64>, v: Seq<i64>, rows: int, cols: int) -> Seq<i64> {
    Seq::new(rows as nat, |i: int| dot(mat_row(m, cols, i), v))
}

/// Accumulating outer product: entry `(i, j)` of the flat result adds
/// `g[i] * v[j]` to the previous contents.
pub open spec fn outer_acc_spec(mg: Seq<i64>, g: Seq<i64>, v: Seq<i64>) -> Seq<i64> {
    Seq::new(
        (g.len() * v.len()) as nat,
        |k: int| wrap_add(mg[k], wrap_mul(g[k / v.len() as int], v[k % v.len() as int])),
    )
}

/// Accumulating transposed matrix-vector product: entry `j` adds the dot
/// product of matrix column `j` with `g` to the previous contents.
pub open spec fn tmv_acc_spec(vg: Seq<i64>, m: Seq<i64>, g: Seq<i64>) -> Seq<i64> {
    Seq::new(
        vg.len(),
        |j: int| wrap_add(vg[j], dot(mat_col(m, g.len() as int, vg.len() as int, j), g)),
    )
}

/// The contents model of a buffer arena: the element sequence of every
/// buffer, shapes left aside.
pub open spec fn datas(bufs: Seq<Tensor>) -> Seq<Seq<i64>> {
    Seq::new(bufs.len(), |h: int| bufs[h].data@)
}

/// An owned n-dimensional buffer of elements, stored flat in row-major order.
#[derive(Debug, Clone)]
pub struct Tensor {
    /// Dimension sizes, outermost first.
    pub shape: Vec<usize>,
    /// Element storage; its length is the product of the dimensions.
    pub data: Vec<i64>,
}

impl Tensor {
    /// The buffer holds exactly as many elements as its shape calls for,
    /// and every dimension is positive.
    pub open spec fn wf(&self) -> bool {
        &&& self.data@.len() == prod(self.shape@)
        &&& shape_ok(self.shape@)
    }
}

/// The product of a positive-dimension shape is at least 1.
pub proof fn lemma_prod_from_pos(s: Seq<usize>, i: int)
    requires
        shape_ok(s),
    ensures
        prod_from(s, i) >= 1,
    decreases s.len() - i,
{
    if 0 <= i < s.len() {
        lemma_prod_from_pos(s, i + 1);
        assert(prod_from(s, i) >= 1) by (nonlinear_arith)
            requires
                s[i] >= 1,
                prod_from(s, i + 1) >= 1,
                prod_from(s, i) == s[i] * prod_from(s, i + 1),
        ;
    }
}

/// For positive dimensions, every suffix product divides into the whole
/// product, so it can be no larger.
pub proof fn lemma_prod_from_le(s: Seq<usize>, i: int)
    requires
        shape_ok(s),
        0 <= i <= s.len(),
    ensures
        prod_from(s, i) <= prod(s),
    decreases i,
{
    if i > 0 {
        lemma_prod_from_le(s, i - 1);
        lemma_prod_from_pos(s, i);
        assert(prod_from(s, i) <= prod_from(s, i - 1)) by (nonlinear_arith)
            requires
                s[i - 1] >= 1,
                prod_from(s, i) >= 1,
                prod_from(s, i - 1) == s[i - 1] * prod_from(s, i),
        ;
    }
}

/// A rank-2 shape calls for `rows * cols` elements.
pub proof fn lemma_prod_rank2(s: Seq<usize>)
    requires
        s.len() == 2,
    ensures
        prod(s) == s[0] * s[1],
{
    reveal_with_fuel(prod_from, 4);
}

/// A rank-1 shape calls for as many elements as its single dimension.
pub proof fn lemma_prod_rank1(s: Seq<usize>)
    requires
        s.len() == 1,
    ensures
        prod(s) == s[0],
{
    reveal_with_fuel(prod_from, 3);
}

impl Tensor {
    /// Creates a tensor of the given shape with every element set to `value`.
    pub fn from_elem(shape: Vec<usize>, value: i64) -> (t: Tensor)
        requires
            shape_ok(shape@),
            prod(shape@) <= usize::MAX,
        ensures
            t.shape@ == shape@,
            t.data@ == Seq::new(prod(shape@) as nat, |i: int| value),
            t.wf(),
    {
        let n = count_elems(&shape);
        let data: Vec<i64> = vec![value; n];
        proof {
            lemma_prod_from_pos(shape@, 0);
            assert(data@ =~= Seq::new(prod(shape@) as nat, |i: int| value));
        }
        Tensor { shape, data }
    }

    /// Creates a tensor of the given shape with every element zero.
    pub fn zeros(shape: Vec<usize>) -> (t: Tensor)
        requires
            shape_ok(shape@),
            prod(shape@) <= usize::MAX,
        ensures
            t.shape@ == shape@,
            t.data@ == Seq::new(prod(shape@) as nat, |i: int| 0i64),
            t.wf(),
    {
        Tensor::from_elem(shape, 0)
    }

    /// Creates a tensor from an explicit element list.
    pub fn from_vec(shape: Vec<usize>, data: Vec<i64>) -> (t: Tensor)
        requires
            shape_ok(shape@),
            data@.len() == prod(shape@),
        ensures
            t.shape@ == shape@,
            t.data@ == data@,
            t.wf(),
    {
        Tensor { shape, data }
    }

    /// Number of elements in the buffer.
    pub fn len(&self) -> (n: usize)
        ensures
            n == self.data@.len(),
    {
        self.data.len()
    }

    /// The element at flat index `i`.
    pub fn get(&self, i: usize) -> (x: i64)
        requires
            i < self.data@.len(),
        ensures
            x == self.data@[i as int],
    {
        self.data[i]
    }

    /// Two tensors are shape-compatible for elementwise operations
    /// exactly when their shapes are identical.
    pub fn same_shape(&self, other: &Tensor) -> (r: bool)
        ensures
            r == (self.shape@ == other.shape@),
    {
        eq_usize_vecs(&self.shape, &other.shape)
    }
}

/// Number of elements a shape vector calls for, as a machine integer.
pub fn count_elems(shape: &Vec<usize>) -> (n: usize)
    requires
        shape_ok(shape@),
        prod(shape@) <= usize::MAX,
    ensures
        n == prod(shape@),
{
    let ghost s = shape@;
    let mut n: usize = 1;
    let mut i: usize = shape.len();
    proof {
        lemma_prod_from_le(s, i as int);
        lemma_prod_from_pos(s, i as int);
    }
    while i > 0
        invariant
            0 <= i <= s.len(),
            shape@ == s,
            shape_ok(s),
            prod(s) <= usize::MAX,
            n == prod_from(s, i as int),
        decreases i,
    {
        proof {
            lemma_prod_from_le(s, i - 1);
            lemma_prod_from_pos(s, i as int);
        }
        i = i - 1;
        n = shape[i] * n;
    }
    n
}

/// Equality test on two shape vectors.
pub fn eq_usize_vecs(a: &Vec<usize>, b: &Vec<usize>) -> (r: bool)
    ensures
        r == (a@ == b@),
{
    if a.len() != b.len() {
        proof {
            assert(a@.len() != b@.len());
        }
        return false;
    }
    let n = a.len();
    for i in 0..n
        invariant
            n == a@.len() == b@.len(),
            forall|j: int| 0 <= j < i ==> a@[j] == b@[j],
    {
        if a[i] != b[i] {
            return false;
        }
    }
    proof {
        assert(a@ =~= b@);
    }
    true
}

/// An element-for-element copy of a shape vector.
pub fn copy_shape(v: &Vec<usize>) -> (r: Vec<usize>)
    ensures
        r@ == v@,
{
    let n = v.len();
    let mut r: Vec<usize> = Vec::new();
    for k in 0..n
        invariant
            n == v@.len(),
            r@ == v@.subrange(0, k as int),
    {
        r.push(v[k]);
        proof {
            assert(r@ =~= v@.subrange(0, k + 1));
        }
    }
    proof {
        assert(r@ =~= v@);
    }
    r
}

/// An element-for-element copy of a buffer.
pub fn copy_vec(v: &Vec<i64>) -> (r: Vec<i64>)
    ensures
        r@ == v@,
{
    let n = v.len();
    let mut r: Vec<i64> = Vec::new();
    for k in 0..n
        invariant
            n == v@.len(),
            r@ == v@.subrange(0, k as int),
    {
        r.push(v[k]);
        proof {
            assert(r@ =~= v@.subrange(0, k + 1));
        }
    }
    proof {
        assert(r@ =~= v@);
    }
    r
}

/// Elementwise wrapping sum of two equal-length buffers.
pub fn add_vecs(a: &Vec<i64>, b: &Vec<i64>) -> (r: Vec<i64>)
    requires
        a@.len() == b@.len(),
    ensures
        r@ == seq_add(a@, b@),
{
    let n = a.len();
    let mut r: Vec<i64> = Vec::new();
    for k in 0..n
        invariant
            n == a@.len() == b@.len(),
            r@.len() == k,
            forall|j: int| 0 <= j < k ==> r@[j] == wrap_add(a@[j], b@[j]),
    {
        let x = wadd(a[k], b[k]);
        r.push(x);
    }
    proof {
        assert(r@ =~= seq_add(a@, b@));
    }
    r
}

/// Adds `src` elementwise into `dst`, wrapping on overflow.
pub fn acc_vecs(dst: &mut Vec<i64>, src: &Vec<i64>)
    requires
        old(dst)@.len() == src@.len(),
    ensures
        final(dst)@ == seq_add(old(dst)@, src@),
{
    let ghost d0 = dst@;
    let n = src.len();
    for k in 0..n
        invariant
            n == d0.len() == src@.len(),
            dst@.len() == d0.len(),
            forall|j: int| 0 <= j < k ==> dst@[j] == wrap_add(d0[j], src@[j]),
            forall|j: int| k <= j < n ==> dst@[j] == d0[j],
    {
        let x = wadd(dst[k], src[k]);
        dst[k] = x;
    }
    proof {
        assert(dst@ =~= seq_add(d0, src@));
    }
}

/// Matrix-vector product of a flat `rows x cols` matrix and a vector,
/// accumulated left to right with wrapping arithmetic.
pub fn matvec_mul(m: &Vec<i64>, v: &Vec<i64>, rows: usize, cols: usize) -> (r: Vec<i64>)
    requires
        m@.len() == rows * cols,
        v@.len() == cols,
    ensures
        r@ == matvec(m@, v@, rows as int, cols as int),
{
    let mlen = m.len();
    let mut r: Vec<i64> = Vec::new();
    for i in 0..rows
        invariant
            m@.len() == rows * cols,
            m@.len() == mlen,
            v@.len() == cols,
            r@.len() == i,
            forall|i2: int| 0 <= i2 < i ==> r@[i2] == dot(mat_row(m@, cols as int, i2), v@),
    {
        proof {
            assert(i * cols + cols <= rows * cols) by (nonlinear_arith)
                requires
                    0 <= i < rows,
            ;
            assert(0 <= i * cols) by (nonlinear_arith)
                requires
                    0 <= i,
                    0 <= cols,
            ;
        }
        let ghost rowseq = mat_row(m@, cols as int, i as int);
        let mut acc: i64 = 0;
        for j in 0..cols
            invariant
                m@.len() == rows * cols,
                m@.len() == mlen,
                v@.len() == cols,
                0 <= i < rows,
                i * cols + cols <= rows * cols,
                0 <= i * cols,
                rowseq == mat_row(m@, cols as int, i as int),
                acc == dot_prefix(rowseq, v@, j as int),
        {
            let x = wmul(m[i * cols + j], v[j]);
            acc = wadd(acc, x);
            proof {
                assert(rowseq[j as int] == m@[i * cols + j]);
            }
        }
        proof {
            assert(rowseq.len() == cols);
            assert(acc == dot(rowseq, v@));
        }
        r.push(acc);
    }
    proof {
        assert(r@ =~= matvec(m@, v@, rows as int, cols as int));
    }
    r
}

/// Accumulates the outer product of `g` and `v` into the flat matrix `mg`.
pub fn outer_acc(mg: &mut Vec<i64>, g: &Vec<i64>, v: &Vec<i64>)
    requires
        old(mg)@.len() == g@.len() * v@.len(),
    ensures
        final(mg)@ == outer_acc_spec(old(mg)@, g@, v@),
{
    let ghost m0 = mg@;
    let mlen = mg.len();
    let rows = g.len();
    let cols = v.len();
    proof {
        assert(0 * cols == 0) by (nonlinear_arith);
    }
    for i in 0..rows
        invariant
            m0.len() == rows * cols,
            mg@.len() == m0.len(),
            m0.len() == mlen,
            rows == g@.len(),
            cols == v@.len(),
            forall|k: int| 0 <= k < i * cols ==> mg@[k] == wrap_add(
                m0[k],
                wrap_mul(g@[k / cols as int], v@[k % cols as int]),
            ),
            forall|k: int| i * cols <= k < m0.len() ==> mg@[k] == m0[k],
    {
        proof {
            assert(i * cols + cols <= rows * cols && 0 <= i * cols) by (nonlinear_arith)
                requires
                    0 <= i < rows,
                    0 <= cols,
            ;
        }
        for j in 0..cols
            invariant
                m0.len() == rows * cols,
                mg@.len() == m0.len(),
                m0.len() == mlen,
                rows == g@.len(),
                cols == v@.len(),
                0 <= i < rows,
                i * cols + cols <= rows * cols,
                0 <= i * cols,
                forall|k: int| 0 <= k < i * cols + j ==> mg@[k] == wrap_add(
                    m0[k],
                    wrap_mul(g@[k / cols as int], v@[k % cols as int]),
                ),
                forall|k: int| i * cols + j <= k < m0.len() ==> mg@[k] == m0[k],
        {
            let k: usize = i * cols + j;
            proof {
                vstd::arithmetic::div_mod::lemma_fundamental_div_mod_converse(
                    k as int,
                    cols as int,
                    i as int,
                    j as int,
                );
            }
            let x = wmul(g[i], v[j]);
            let y = wadd(mg[k], x);
            mg[k] = y;
        }
        proof {
            assert((i + 1) * cols == i * cols + cols) by (nonlinear_arith);
        }
    }
    proof {
        assert(mg@ =~= outer_acc_spec(m0, g@, v@));
    }
}

/// Accumulates the transposed matrix-vector product `m^T * g` into `vg`.
pub fn tmv_acc(vg: &mut Vec<i64>, m: &Vec<i64>, g: &Vec<i64>)
    requires
        m@.len() == g@.len() * old(vg)@.len(),
    ensures
        final(vg)@ == tmv_acc_spec(old(vg)@, m@, g@),
{
    let ghost v0 = vg@;
    let mlen = m.len();
    let rows = g.len();
    let cols = vg.len();
    for j in 0..cols
        invariant
            m@.len() == rows * cols,
            m@.len() == mlen,
            vg@.len() == v0.len() == cols,
            rows == g@.len(),
            forall|j2: int| 0 <= j2 < j ==> vg@[j2] == wrap_add(
                v0[j2],
                dot(mat_col(m@, rows as int, cols as int, j2), g@),
            ),
            forall|j2: int| j <= j2 < cols ==> vg@[j2] == v0[j2],
    {
        let ghost colseq = mat_col(m@, rows as int, cols as int, j as int);
        let mut acc: i64 = 0;
        for i in 0..rows
            invariant
                m@.len() == rows * cols,
                m@.len() == mlen,
                rows == g@.len(),
                cols == vg@.len(),
                0 <= j < cols,
                colseq == mat_col(m@, rows as int, cols as int, j as int),
                acc == dot_prefix(colseq, g@, i as int),
        {
            proof {
                assert(i * cols + j < rows * cols && 0 <= i * cols + j) by (nonlinear_arith)
                    requires
                        0 <= i < rows,
                        0 <= j < cols,
                ;
                assert(colseq[i as int] == m@[i as int * cols + j]);
            }
            let x = wmul(m[i * cols + j], g[i]);
            acc = wadd(acc, x);
        }
        proof {
            assert(colseq.len() == rows);
            assert(acc == dot(colseq, g@));
        }
        let y = wadd(vg[j], acc);
        vg[j] = y;
    }
    proof {
        assert(vg@ =~= tmv_acc_spec(v0, m@, g@));
    }
}

} // verus!
