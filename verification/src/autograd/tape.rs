//! The tape: an append-only ordered list of computation nodes together
//! with the arena of buffers they read and write.
//!
//! Insertion order doubles as topological order: a node can only be built
//! from already-inserted operands, so every operand index is strictly less
//! than the node's own index.  A full `forward` replay recomputes every
//! node's output buffer, in ascending index order, to exactly its
//! mathematical evaluation from the current leaf buffers ([`eval`]).

use vstd::prelude::*;

use crate::autograd::expr::Expression;
use crate::autograd::leaf::{LeafBackward, LeafForward};
use crate::autograd::operations::{BackwardKind, BackwardOp, ForwardKind, ForwardOp};
use crate::tensor::{
    copy_shape, copy_vec, datas, lemma_prod_rank1, lemma_prod_rank2, matvec, prod, seq_add,
    shape_ok, Tensor,
};

verus! {

/// A typed failure outcome; no operation aborts the process.
#[derive(Debug, Clone)]
pub enum TapeError {
    /// An operation's operand shapes violate its dimensional contract;
    /// carries both offending shapes.
    ShapeMismatch { left: Vec<usize>, right: Vec<usize> },
    /// `backward` was invoked on a node other than the last-inserted one;
    /// carries the offending index.
    NotTerminalNode { index: usize },
}

/// One tape entry: a forward operator, an optional backward operator, and
/// the indices of the operand nodes.
pub struct Node {
    /// The forward operator.
    pub fw: ForwardKind,
    /// The backward operator, present only when an operand tracks
    /// gradients.
    pub bw: Option<BackwardKind>,
    /// Indices of the operand nodes; each is strictly less than this
    /// node's own index.
    pub operands: Vec<usize>,
}

impl Node {
    /// Handle of the node's output buffer.
    pub open spec fn out(&self) -> usize {
        self.fw.fw_out()
    }

    /// Handle of the node's gradient buffer, if it tracks gradients.
    pub open spec fn grad(&self) -> Option<usize> {
        match self.bw {
            None => None,
            Some(BackwardKind::Leaf(lb)) => Some(lb.grad),
            Some(BackwardKind::Addition(ab)) => Some(ab.output_grad),
            Some(BackwardKind::MatVecMul(mb)) => Some(mb.output_grad),
        }
    }

    /// What one backward step does to the buffer contents: the backward
    /// operator's accumulation if present, nothing otherwise.
    pub open spec fn bw_step(&self, vals: Seq<Seq<i64>>) -> Seq<Seq<i64>> {
        match self.bw {
            None => vals,
            Some(b) => b.bw_vals(vals),
        }
    }

    /// Delegates to the wrapped forward operator.
    pub fn forward(&self, bufs: &mut Vec<Tensor>)
        requires
            self.fw.fw_wf(old(bufs)@),
        ensures
            final(bufs)@.len() == old(bufs)@.len(),
            self.out() < old(bufs)@.len(),
            forall|h: int|
                0 <= h < old(bufs)@.len() && h != self.out() ==> final(bufs)@[h] == old(bufs)@[h],
            final(bufs)@[self.out() as int].shape@ == old(bufs)@[self.out() as int].shape@,
            final(bufs)@[self.out() as int].data@ == self.fw.fw_value(old(bufs)@),
    {
        self.fw.forward(bufs);
    }

    /// Delegates to the wrapped backward operator if present; no-op
    /// otherwise.
    pub fn backward(&self, bufs: &mut Vec<Tensor>)
        requires
            match self.bw {
                Some(b) => b.bw_wf(old(bufs)@),
                None => true,
            },
        ensures
            final(bufs)@.len() == old(bufs)@.len(),
            forall|h: int|
                0 <= h < old(bufs)@.len() ==> final(bufs)@[h].shape@ == old(bufs)@[h].shape@,
            datas(final(bufs)@) == self.bw_step(datas(old(bufs)@)),
    {
        if let Some(b) = &self.bw {
            b.backward(bufs);
        }
    }
}

/// Structural well-formedness of node `i`: its forward operator reads
/// exactly its operand nodes' output buffers, its backward operator (if
/// any) is of the matching kind and wired to its operands' gradient
/// buffers, and every operand index is strictly less than `i`.
pub open spec fn node_wf(nodes: Seq<Node>, bufs: Seq<Tensor>, i: int) -> bool {
    let n = nodes[i];
    &&& n.fw.fw_wf(bufs)
    &&& (forall|k: int| 0 <= k < n.operands@.len() ==> #[trigger] n.operands@[k] < i)
    &&& match n.fw {
        ForwardKind::Leaf(lf) => {
            &&& n.operands@.len() == 0
            &&& match n.bw {
                None => true,
                Some(BackwardKind::Leaf(_)) => true,
                Some(_) => false,
            }
        },
        ForwardKind::Addition(af) => {
            &&& n.operands@.len() == 2
            &&& af.operands[0] == nodes[n.operands@[0] as int].out()
            &&& af.operands[1] == nodes[n.operands@[1] as int].out()
            &&& match n.bw {
                None => true,
                Some(BackwardKind::Addition(ab)) => {
                    &&& ab.operands_grad[0] == nodes[n.operands@[0] as int].grad()
                    &&& ab.operands_grad[1] == nodes[n.operands@[1] as int].grad()
                },
                Some(_) => false,
            }
        },
        ForwardKind::MatVecMul(mf) => {
            &&& n.operands@.len() == 2
            &&& mf.matrix == nodes[n.operands@[0] as int].out()
            &&& mf.vector == nodes[n.operands@[1] as int].out()
            &&& match n.bw {
                None => true,
                Some(BackwardKind::MatVecMul(mb)) => {
                    &&& mb.matrix_out == mf.matrix
                    &&& mb.vector_out == mf.vector
                    &&& mb.matrix_grad == nodes[n.operands@[0] as int].grad()
                    &&& mb.vector_grad == nodes[n.operands@[1] as int].grad()
                },
                Some(_) => false,
            }
        },
    }
}

/// The node's gradient buffer, when present, is in bounds and
/// shape-identical to the node's output buffer.
pub open spec fn grad_ok(nodes: Seq<Node>, bufs: Seq<Tensor>, i: int) -> bool {
    match nodes[i].grad() {
        Some(g) => {
            &&& g < bufs.len()
            &&& bufs[g as int].shape@ == bufs[nodes[i].out() as int].shape@
        },
        None => true,
    }
}

/// Well-formedness of a whole tape: every buffer is well-formed, every
/// node is structurally well-formed, output buffers are pairwise
/// distinct, gradient buffers are pairwise distinct, and no gradient
/// buffer doubles as an output buffer.
pub open spec fn tape_wf(nodes: Seq<Node>, bufs: Seq<Tensor>) -> bool {
    &&& (forall|h: int| 0 <= h < bufs.len() ==> (#[trigger] bufs[h]).wf())
    &&& (forall|i: int| 0 <= i < nodes.len() ==> node_wf(nodes, bufs, i))
    &&& (forall|i: int| 0 <= i < nodes.len() ==> grad_ok(nodes, bufs, i))
    &&& (forall|i: int, j: int|
        0 <= i < nodes.len() && 0 <= j < nodes.len() && i != j ==> nodes[i].out()
            != nodes[j].out())
    &&& (forall|i: int, j: int|
        0 <= i < nodes.len() && 0 <= j < nodes.len() ==> nodes[j].grad() != Some(
            nodes[i].out(),
        ))
    &&& (forall|i: int, j: int|
        0 <= i < nodes.len() && 0 <= j < nodes.len() && i != j && nodes[i].grad() is Some
            ==> nodes[i].grad() != nodes[j].grad())
}

/// Whether buffer `h` is some node's output buffer.
pub open spec fn is_out(nodes: Seq<Node>, h: int) -> bool {
    exists|i: int| 0 <= i < nodes.len() && nodes[i].out() == h
}

/// The mathematical value of node `i`, evaluated recursively from the
/// current leaf buffers: a leaf is its buffer's contents, an addition is
/// the elementwise wrapping sum of its operands' values, and a
/// matrix-vector node is the wrapping product of its operands' values.
/// Well-founded because operand indices are strictly below `i`.
pub open spec fn eval(nodes: Seq<Node>, bufs: Seq<Tensor>, i: int) -> Seq<i64>
    decreases i,
{
    if i < 0 || i >= nodes.len() {
        Seq::empty()
    } else {
        let n = nodes[i];
        match n.fw {
            ForwardKind::Leaf(lf) => bufs[lf.value as int].data@,
            ForwardKind::Addition(_) => {
                if n.operands@.len() == 2 && 0 <= n.operands@[0] < i && 0 <= n.operands@[1] < i {
                    seq_add(
                        eval(nodes, bufs, n.operands@[0] as int),
                        eval(nodes, bufs, n.operands@[1] as int),
                    )
                } else {
                    Seq::empty()
                }
            },
            ForwardKind::MatVecMul(mf) => {
                if n.operands@.len() == 2 && 0 <= n.operands@[0] < i && 0 <= n.operands@[1] < i {
                    let m = eval(nodes, bufs, n.operands@[0] as int);
                    let v = eval(nodes, bufs, n.operands@[1] as int);
                    matvec(m, v, bufs[mf.output as int].shape@[0] as int, v.len() as int)
                } else {
                    Seq::empty()
                }
            },
        }
    }
}

/// What a full forward replay does to the buffer arena: every node's
/// output buffer holds exactly its evaluation from the pre-state, no
/// buffer changes shape, and buffers that are not output buffers are
/// untouched.
pub open spec fn forward_rel(nodes: Seq<Node>, pre: Seq<Tensor>, post: Seq<Tensor>) -> bool {
    &&& post.len() == pre.len()
    &&& (forall|h: int| 0 <= h < pre.len() ==> post[h].shape@ == pre[h].shape@)
    &&& (forall|h: int|
        0 <= h < pre.len() && !is_out(nodes, h) ==> post[h] == pre[h])
    &&& (forall|i: int|
        0 <= i < nodes.len() ==> (#[trigger] post[nodes[i].out() as int]).data@ == eval(
            nodes,
            pre,
            i,
        ))
}

/// What a full backward sweep does to the buffer contents: the node
/// backward steps applied in descending index order from `i` down to 0.
pub open spec fn run_bw(nodes: Seq<Node>, vals: Seq<Seq<i64>>, i: int) -> Seq<Seq<i64>>
    decreases i + 1,
{
    if i < 0 || i >= nodes.len() {
        vals
    } else {
        run_bw(nodes, nodes[i].bw_step(vals), i - 1)
    }
}

/// The append-only ordered list of nodes, together with the buffer arena
/// they read and write.
pub struct Tape {
    /// The node list; insertion order is topological order.
    pub nodes: Vec<Node>,
    /// The buffer arena: output and gradient buffers, addressed by index.
    pub bufs: Vec<Tensor>,
}

/// A node may be inserted when it is structurally well-formed at the next
/// index and its output and gradient buffers are fresh: in bounds,
/// mutually distinct, and unclaimed by every existing node.
pub open spec fn fits(node: Node, nodes: Seq<Node>, bufs: Seq<Tensor>) -> bool {
    &&& node_wf(nodes.push(node), bufs, nodes.len() as int)
    &&& grad_ok(nodes.push(node), bufs, nodes.len() as int)
    &&& (forall|j: int| 0 <= j < nodes.len() ==> node.out() != nodes[j].out())
    &&& (forall|j: int| 0 <= j < nodes.len() ==> nodes[j].grad() != Some(node.out()))
    &&& (forall|j: int|
        0 <= j < nodes.len() ==> (node.grad() is Some ==> node.grad() != nodes[j].grad()
            && node.grad() != Some(nodes[j].out())))
    &&& node.grad() != Some(node.out())
}

impl Tape {
    /// The tape's structural invariant.
    pub open spec fn wf(&self) -> bool {
        tape_wf(self.nodes@, self.bufs@)
    }

    /// Creates an empty tape.
    pub fn new() -> (t: Tape)
        ensures
            t.wf(),
            t.nodes@.len() == 0,
            t.bufs@.len() == 0,
    {
        Tape { nodes: Vec::new(), bufs: Vec::new() }
    }

    /// Appends a node and returns its newly assigned index.
    pub fn insert(&mut self, node: Node) -> (idx: usize)
        requires
            old(self).wf(),
            fits(node, old(self).nodes@, old(self).bufs@),
        ensures
            final(self).wf(),
            idx == old(self).nodes@.len(),
            final(self).nodes@ == old(self).nodes@.push(node),
            final(self).bufs@ == old(self).bufs@,
    {
        let idx = self.nodes.len();
        proof {
            lemma_tape_wf_push_node(self.nodes@, self.bufs@, node);
        }
        self.nodes.push(node);
        idx
    }

    /// Creates a Leaf node with no gradient tracking; its output buffer is
    /// freshly allocated and filled with `value`.
    pub fn from_elem(&mut self, shape: Vec<usize>, value: i64) -> (e: Expression)
        requires
            old(self).wf(),
            shape_ok(shape@),
            prod(shape@) <= usize::MAX,
        ensures
            final(self).wf(),
            final(self).nodes@.len() == old(self).nodes@.len() + 1,
            final(self).bufs@.len() == old(self).bufs@.len() + 1,
            forall|i: int|
                0 <= i < old(self).nodes@.len() ==> final(self).nodes@[i] == old(self).nodes@[i],
            forall|h: int|
                0 <= h < old(self).bufs@.len() ==> final(self).bufs@[h] == old(self).bufs@[h],
            e.index == old(self).nodes@.len(),
            e.output == old(self).bufs@.len(),
            e.grad is None,
            e.valid(final(self)),
            final(self).nodes@[e.index as int].fw == (ForwardKind::Leaf(
                LeafForward { value: e.output },
            )),
            final(self).nodes@[e.index as int].bw is None,
            final(self).nodes@[e.index as int].operands@.len() == 0,
            final(self).bufs@[e.output as int].shape@ == shape@,
            final(self).bufs@[e.output as int].data@ == Seq::new(
                prod(shape@) as nat,
                |i: int| value,
            ),
    {
        let handle = self.bufs.len();
        let t = Tensor::from_elem(shape, value);
        proof {
            lemma_tape_wf_push_buf(self.nodes@, self.bufs@, t);
            lemma_handles_in_bounds(self.nodes@, self.bufs@);
        }
        self.bufs.push(t);
        let node = Node {
            fw: ForwardKind::Leaf(LeafForward { value: handle }),
            bw: None,
            operands: Vec::new(),
        };
        let idx = self.insert(node);
        Expression { index: idx, output: handle, grad: None }
    }

    /// Creates a Leaf node that tracks gradients: its output buffer is
    /// filled with `value` and a zero-initialized gradient buffer of the
    /// same shape is attached through a Leaf backward operator.
    pub fn from_elem_grad(&mut self, shape: Vec<usize>, value: i64) -> (e: Expression)
        requires
            old(self).wf(),
            shape_ok(shape@),
            prod(shape@) <= usize::MAX,
        ensures
            final(self).wf(),
            final(self).nodes@.len() == old(self).nodes@.len() + 1,
            final(self).bufs@.len() == old(self).bufs@.len() + 2,
            forall|i: int|
                0 <= i < old(self).nodes@.len() ==> final(self).nodes@[i] == old(self).nodes@[i],
            forall|h: int|
                0 <= h < old(self).bufs@.len() ==> final(self).bufs@[h] == old(self).bufs@[h],
            e.index == old(self).nodes@.len(),
            e.output == old(self).bufs@.len(),
            e.grad == Some((old(self).bufs@.len() + 1) as usize),
            e.valid(final(self)),
            final(self).nodes@[e.index as int].fw == (ForwardKind::Leaf(
                LeafForward { value: e.output },
            )),
            final(self).nodes@[e.index as int].bw == Some(
                BackwardKind::Leaf(LeafBackward { grad: (old(self).bufs@.len() + 1) as usize }),
            ),
            final(self).nodes@[e.index as int].operands@.len() == 0,
            final(self).bufs@[e.output as int].shape@ == shape@,
            final(self).bufs@[e.output as int].data@ == Seq::new(
                prod(shape@) as nat,
                |i: int| value,
            ),
            final(self).bufs@[e.output as int + 1].shape@ == shape@,
            final(self).bufs@[e.output as int + 1].data@ == Seq::new(
                prod(shape@) as nat,
                |i: int| 0i64,
            ),
    {
        let handle = self.bufs.len();
        let ghost shape0 = shape@;
        let gshape = crate::tensor::copy_shape(&shape);
        let t = Tensor::from_elem(shape, value);
        let g = Tensor::zeros(gshape);
        proof {
            lemma_tape_wf_push_buf(self.nodes@, self.bufs@, t);
            lemma_tape_wf_push_buf(self.nodes@, self.bufs@.push(t), g);
            lemma_handles_in_bounds(self.nodes@, self.bufs@);
        }
        self.bufs.push(t);
        let ghandle = self.bufs.len();
        self.bufs.push(g);
        let node = Node {
            fw: ForwardKind::Leaf(LeafForward { value: handle }),
            bw: Some(BackwardKind::Leaf(LeafBackward { grad: ghandle })),
            operands: Vec::new(),
        };
        let idx = self.insert(node);
        Expression { index: idx, output: handle, grad: Some(ghandle) }
    }

    /// A copy of the current contents of the expression's output buffer.
    pub fn value_of(&self, e: &Expression) -> (r: Vec<i64>)
        requires
            self.wf(),
            e.valid(self),
        ensures
            r@ == self.bufs@[e.output as int].data@,
    {
        proof {
            lemma_handles_in_bounds(self.nodes@, self.bufs@);
        }
        copy_vec(&self.bufs[e.output].data)
    }

    /// A copy of the current contents of the expression's gradient
    /// buffer, if one is attached.
    pub fn grad_of(&self, e: &Expression) -> (r: Option<Vec<i64>>)
        requires
            self.wf(),
            e.valid(self),
        ensures
            match e.grad {
                Some(g) => (r matches Some(v) && v@ == self.bufs@[g as int].data@),
                None => r is None,
            },
    {
        match e.grad {
            Some(g) => {
                proof {
                    assert(grad_ok(self.nodes@, self.bufs@, e.index as int));
                }
                Some(copy_vec(&self.bufs[g].data))
            },
            None => None,
        }
    }

    /// Overwrites the expression's output buffer in place with the
    /// contents of `t`.  Mutating a leaf buffer this way and replaying
    /// `forward` is the supported mechanism for iterative recomputation.
    pub fn assign(&mut self, e: &Expression, t: &Tensor) -> (r: Result<(), TapeError>)
        requires
            old(self).wf(),
            e.valid(old(self)),
            t.wf(),
        ensures
            final(self).wf(),
            final(self).nodes@ == old(self).nodes@,
            final(self).bufs@.len() == old(self).bufs@.len(),
            match r {
                Ok(_) => {
                    &&& t.shape@ == old(self).bufs@[e.output as int].shape@
                    &&& final(self).bufs@[e.output as int].data@ == t.data@
                    &&& final(self).bufs@[e.output as int].shape@ == t.shape@
                    &&& forall|h: int|
                        0 <= h < old(self).bufs@.len() && h != e.output ==> final(self).bufs@[h]
                            == old(self).bufs@[h]
                },
                Err(err) => {
                    &&& t.shape@ != old(self).bufs@[e.output as int].shape@
                    &&& final(self).bufs@ == old(self).bufs@
                    &&& (err matches TapeError::ShapeMismatch { left, right } && left@ == old(
                        self,
                    ).bufs@[e.output as int].shape@ && right@ == t.shape@)
                },
            },
    {
        let ghost pre = *self;
        proof {
            lemma_handles_in_bounds(self.nodes@, self.bufs@);
        }
        if !self.bufs[e.output].same_shape(t) {
            let left = copy_shape(&self.bufs[e.output].shape);
            let right = copy_shape(&t.shape);
            return Err(TapeError::ShapeMismatch { left, right });
        }
        let d = copy_vec(&t.data);
        let dst = &mut self.bufs[e.output];
        dst.data = d;
        proof {
            assert(self.bufs@[e.output as int].wf());
            lemma_tape_wf_data_stable(pre.nodes@, pre.bufs@, self.bufs@);
        }
        Ok(())
    }

    /// Invokes every node's forward operator in ascending index order: a
    /// full deterministic recomputation of all buffers from the current
    /// leaf values.
    pub fn forward(&mut self)
        requires
            old(self).wf(),
        ensures
            final(self).wf(),
            final(self).nodes@ == old(self).nodes@,
            final(self).bufs@.len() == old(self).bufs@.len(),
            forward_rel(old(self).nodes@, old(self).bufs@, final(self).bufs@),
    {
        let ghost nodes0 = self.nodes@;
        let ghost b0 = self.bufs@;
        let n = self.nodes.len();
        for k in 0..n
            invariant
                self.nodes@ == nodes0,
                n == nodes0.len(),
                tape_wf(nodes0, b0),
                tape_wf(nodes0, self.bufs@),
                self.bufs@.len() == b0.len(),
                forall|h: int| 0 <= h < b0.len() ==> self.bufs@[h].shape@ == b0[h].shape@,
                forall|h: int|
                    0 <= h < b0.len() && !is_out(nodes0, h) ==> self.bufs@[h] == b0[h],
                forall|j: int|
                    0 <= j < k ==> (#[trigger] self.bufs@[nodes0[j].out() as int]).data@ == eval(
                        nodes0,
                        b0,
                        j,
                    ),
                forall|j: int|
                    k <= j < n ==> #[trigger] self.bufs@[nodes0[j].out() as int] == b0[nodes0[j].out() as int],
        {
            let ghost cur = self.bufs@;
            proof {
                assert(node_wf(nodes0, cur, k as int));
                lemma_out_in_bounds(nodes0, cur, k as int);
            }
            let node = &self.nodes[k];
            node.forward(&mut self.bufs);
            proof {
                let out_k = nodes0[k as int].out() as int;
                lemma_fw_value_is_eval(nodes0, b0, cur, k as int);
                assert(self.bufs@[out_k].data@ == eval(nodes0, b0, k as int));
                lemma_eval_len(nodes0, b0, k as int);
                assert(self.bufs@[out_k].wf());
                lemma_tape_wf_data_stable(nodes0, cur, self.bufs@);
                assert forall|j: int|
                    k + 1 <= j < n implies #[trigger] self.bufs@[nodes0[j].out() as int] == b0[nodes0[j].out() as int] by {
                    assert(nodes0[j].out() != nodes0[k as int].out());
                    lemma_out_in_bounds(nodes0, b0, j);
                }
                assert forall|j: int|
                    0 <= j < k + 1 implies (#[trigger] self.bufs@[nodes0[j].out() as int]).data@
                    == eval(nodes0, b0, j) by {
                    if j < k {
                        assert(nodes0[j].out() != nodes0[k as int].out());
                        lemma_out_in_bounds(nodes0, b0, j);
                        assert(self.bufs@[nodes0[j].out() as int] == cur[nodes0[j].out() as int]);
                    }
                }
            }
        }
    }
}

/// Every output and gradient buffer handle on a well-formed tape is in
/// bounds.
pub proof fn lemma_handles_in_bounds(nodes: Seq<Node>, bufs: Seq<Tensor>)
    requires
        tape_wf(nodes, bufs),
    ensures
        forall|j: int| 0 <= j < nodes.len() ==> (#[trigger] nodes[j].out()) < bufs.len(),
        forall|j: int|
            0 <= j < nodes.len() ==> ((#[trigger] nodes[j].grad()) matches Some(g) ==> g
                < bufs.len()),
{
    assert forall|j: int| 0 <= j < nodes.len() implies (#[trigger] nodes[j].out()) < bufs.len() by {
        lemma_out_in_bounds(nodes, bufs, j);
    }
    assert forall|j: int|
        0 <= j < nodes.len() && nodes[j].grad() is Some implies nodes[j].grad()->Some_0
        < bufs.len() by {
        assert(grad_ok(nodes, bufs, j));
    }
}

/// Node well-formedness depends on the buffers only through their shapes
/// and their well-formedness, so it survives any data rewrite that keeps
/// both.
pub proof fn lemma_tape_wf_data_stable(nodes: Seq<Node>, b1: Seq<Tensor>, b2: Seq<Tensor>)
    requires
        tape_wf(nodes, b1),
        b2.len() == b1.len(),
        forall|h: int| 0 <= h < b1.len() ==> b2[h].shape@ == b1[h].shape@,
        forall|h: int| 0 <= h < b1.len() ==> (#[trigger] b2[h]).wf(),
    ensures
        tape_wf(nodes, b2),
{
    assert forall|i: int| 0 <= i < nodes.len() implies node_wf(nodes, b2, i) by {
        assert(node_wf(nodes, b1, i));
        match nodes[i].fw {
            ForwardKind::Leaf(_) => {},
            ForwardKind::Addition(_) => {},
            ForwardKind::MatVecMul(_) => {},
        }
    }
    assert forall|i: int| 0 <= i < nodes.len() implies grad_ok(nodes, b2, i) by {
        assert(grad_ok(nodes, b1, i));
        lemma_out_in_bounds(nodes, b1, i);
    }
}

/// The evaluation of node `i` has exactly as many elements as the node's
/// output buffer calls for.
pub proof fn lemma_eval_len(nodes: Seq<Node>, bufs: Seq<Tensor>, i: int)
    requires
        tape_wf(nodes, bufs),
        0 <= i < nodes.len(),
    ensures
        eval(nodes, bufs, i).len() == prod(bufs[nodes[i].out() as int].shape@),
    decreases i,
{
    assert(node_wf(nodes, bufs, i));
    let n = nodes[i];
    match n.fw {
        ForwardKind::Leaf(lf) => {},
        ForwardKind::Addition(af) => {
            let op0 = n.operands@[0] as int;
            lemma_eval_len(nodes, bufs, op0);
            assert(node_wf(nodes, bufs, op0));
        },
        ForwardKind::MatVecMul(mf) => {
            let op1 = n.operands@[1] as int;
            lemma_eval_len(nodes, bufs, op1);
            lemma_prod_rank1(bufs[mf.output as int].shape@);
        },
    }
}

/// Acyclicity: on a well-formed tape, every operand index of every node
/// is strictly less than the node's own index.  Append-only insertion
/// enforces this, and it is what makes [`eval`] well-founded.
pub proof fn lemma_acyclic(t: &Tape)
    requires
        t.wf(),
    ensures
        forall|i: int, k: int|
            0 <= i < t.nodes@.len() && 0 <= k < t.nodes@[i].operands@.len()
                ==> #[trigger] t.nodes@[i].operands@[k] < i,
{
    assert forall|i: int, k: int|
        0 <= i < t.nodes@.len() && 0 <= k < t.nodes@[i].operands@.len() implies #[trigger] t.nodes@[i].operands@[k] < i by {
        assert(node_wf(t.nodes@, t.bufs@, i));
    }
}

/// Node evaluation reads only buffer shapes and the contents of leaf
/// output buffers, so two buffer states that agree on those give every
/// node the same value.
pub proof fn lemma_eval_agrees(nodes: Seq<Node>, b0: Seq<Tensor>, b1: Seq<Tensor>, i: int)
    requires
        tape_wf(nodes, b0),
        b1.len() == b0.len(),
        forall|h: int| 0 <= h < b0.len() ==> b1[h].shape@ == b0[h].shape@,
        forall|j: int|
            0 <= j < nodes.len() && nodes[j].fw is Leaf ==> (#[trigger] b1[nodes[j].out() as int]).data@
                == b0[nodes[j].out() as int].data@,
        0 <= i < nodes.len(),
    ensures
        eval(nodes, b1, i) == eval(nodes, b0, i),
    decreases i,
{
    assert(node_wf(nodes, b0, i));
    let n = nodes[i];
    match n.fw {
        ForwardKind::Leaf(lf) => {
            assert(b1[nodes[i].out() as int].data@ == b0[nodes[i].out() as int].data@);
        },
        ForwardKind::Addition(af) => {
            lemma_eval_agrees(nodes, b0, b1, n.operands@[0] as int);
            lemma_eval_agrees(nodes, b0, b1, n.operands@[1] as int);
        },
        ForwardKind::MatVecMul(mf) => {
            lemma_eval_agrees(nodes, b0, b1, n.operands@[0] as int);
            lemma_eval_agrees(nodes, b0, b1, n.operands@[1] as int);
            lemma_out_in_bounds(nodes, b0, i);
            assert(b1[mf.output as int].shape@ == b0[mf.output as int].shape@);
        },
    }
}

/// Forward determinism: a full forward replay recomputes every buffer
/// from the leaf values alone, so replaying again with unchanged leaf
/// buffers reproduces bit-identical contents in every buffer.
pub proof fn lemma_forward_idempotent(
    nodes: Seq<Node>,
    b0: Seq<Tensor>,
    b1: Seq<Tensor>,
    b2: Seq<Tensor>,
)
    requires
        tape_wf(nodes, b0),
        forward_rel(nodes, b0, b1),
        forward_rel(nodes, b1, b2),
    ensures
        datas(b2) == datas(b1),
{
    assert forall|j: int|
        0 <= j < nodes.len() && nodes[j].fw is Leaf implies (#[trigger] b1[nodes[j].out() as int]).data@
        == b0[nodes[j].out() as int].data@ by {
        assert(node_wf(nodes, b0, j));
        assert(b1[nodes[j].out() as int].data@ == eval(nodes, b0, j));
    }
    assert forall|h: int| 0 <= h < b1.len() implies b2[h].data@ == b1[h].data@ by {
        if is_out(nodes, h) {
            let i = choose|i: int| 0 <= i < nodes.len() && nodes[i].out() == h;
            assert(b2[h].data@ == eval(nodes, b1, i));
            assert(b1[h].data@ == eval(nodes, b0, i));
            lemma_eval_agrees(nodes, b0, b1, i);
        } else {
            assert(b2[h] == b1[h]);
        }
    }
    assert(datas(b2) =~= datas(b1));
}

/// On a well-formed tape, every node's backward operator meets its own
/// precondition: the tape invariant pins the wiring and the shapes, and
/// the shapes pin the buffer lengths.
pub proof fn lemma_node_bw_wf(nodes: Seq<Node>, bufs: Seq<Tensor>, i: int)
    requires
        tape_wf(nodes, bufs),
        0 <= i < nodes.len(),
    ensures
        match nodes[i].bw {
            Some(b) => b.bw_wf(bufs),
            None => true,
        },
{
    assert(node_wf(nodes, bufs, i));
    assert(grad_ok(nodes, bufs, i));
    let n = nodes[i];
    match n.bw {
        None => {},
        Some(BackwardKind::Leaf(lb)) => {
            match n.fw {
                ForwardKind::Leaf(_) => {},
                ForwardKind::Addition(_) => {},
                ForwardKind::MatVecMul(_) => {},
            }
        },
        Some(BackwardKind::Addition(ab)) => {
            match n.fw {
                ForwardKind::Addition(af) => {
                    let og = ab.output_grad as int;
                    assert(bufs[og].shape@ == bufs[af.output as int].shape@);
                    let op0 = n.operands@[0] as int;
                    let op1 = n.operands@[1] as int;
                    assert(node_wf(nodes, bufs, op0));
                    assert(node_wf(nodes, bufs, op1));
                    assert(grad_ok(nodes, bufs, op0));
                    assert(grad_ok(nodes, bufs, op1));
                    assert(ab.grad_slot_ok(ab.operands_grad[0], bufs)) by {
                        match nodes[op0].grad() {
                            Some(h) => {
                                assert(bufs[h as int].shape@ == bufs[nodes[op0].out() as int].shape@);
                                assert(bufs[af.operands[0] as int].shape@ == bufs[af.output as int].shape@);
                                assert(nodes[i].grad() != nodes[op0].grad());
                            },
                            None => {},
                        }
                    }
                    assert(ab.grad_slot_ok(ab.operands_grad[1], bufs)) by {
                        match nodes[op1].grad() {
                            Some(h) => {
                                assert(bufs[h as int].shape@ == bufs[nodes[op1].out() as int].shape@);
                                assert(bufs[af.operands[1] as int].shape@ == bufs[af.output as int].shape@);
                                assert(nodes[i].grad() != nodes[op1].grad());
                            },
                            None => {},
                        }
                    }
                },
                ForwardKind::Leaf(_) => {},
                ForwardKind::MatVecMul(_) => {},
            }
        },
        Some(BackwardKind::MatVecMul(mb)) => {
            match n.fw {
                ForwardKind::MatVecMul(mf) => {
                    let og = mb.output_grad as int;
                    let op0 = n.operands@[0] as int;
                    let op1 = n.operands@[1] as int;
                    assert(node_wf(nodes, bufs, op0));
                    assert(node_wf(nodes, bufs, op1));
                    assert(grad_ok(nodes, bufs, op0));
                    assert(grad_ok(nodes, bufs, op1));
                    lemma_out_in_bounds(nodes, bufs, op0);
                    lemma_out_in_bounds(nodes, bufs, op1);
                    let msh = bufs[mf.matrix as int].shape@;
                    let vals = datas(bufs);
                    lemma_prod_rank2(msh);
                    lemma_prod_rank1(bufs[mf.vector as int].shape@);
                    lemma_prod_rank1(bufs[mf.output as int].shape@);
                    lemma_prod_rank1(bufs[og].shape@);
                    assert(bufs[og].shape@ == bufs[mf.output as int].shape@);
                    assert(vals[og].len() == msh[0]);
                    assert(vals[mb.vector_out as int].len() == msh[1]);
                    assert(vals[mb.matrix_out as int].len() == msh[0] * msh[1]);
                    match mb.matrix_grad {
                        Some(mh) => {
                            assert(bufs[mh as int].shape@ == bufs[nodes[op0].out() as int].shape@);
                            lemma_prod_rank2(bufs[mh as int].shape@);
                            assert(nodes[i].grad() != nodes[op0].grad());
                            assert(nodes[op0].grad() != Some(nodes[op1].out()));
                            assert(nodes[op0].grad() != Some(nodes[op0].out()));
                        },
                        None => {},
                    }
                    match mb.vector_grad {
                        Some(vh) => {
                            assert(bufs[vh as int].shape@ == bufs[nodes[op1].out() as int].shape@);
                            lemma_prod_rank1(bufs[vh as int].shape@);
                            assert(nodes[i].grad() != nodes[op1].grad());
                            assert(nodes[op1].grad() != Some(nodes[op1].out()));
                            assert(nodes[op1].grad() != Some(nodes[op0].out()));
                        },
                        None => {},
                    }
                },
                ForwardKind::Leaf(_) => {},
                ForwardKind::Addition(_) => {},
            }
        },
    }
}

/// A backward step rewrites buffer contents but never changes any
/// buffer's length.
pub proof fn lemma_bw_step_lens(node: Node, bufs: Seq<Tensor>)
    requires
        match node.bw {
            Some(b) => b.bw_wf(bufs),
            None => true,
        },
    ensures
        node.bw_step(datas(bufs)).len() == datas(bufs).len(),
        forall|h: int|
            0 <= h < bufs.len() ==> (#[trigger] node.bw_step(datas(bufs))[h]).len() == datas(
                bufs,
            )[h].len(),
{
    let vals = datas(bufs);
    match node.bw {
        None => {},
        Some(BackwardKind::Leaf(_)) => {},
        Some(BackwardKind::Addition(ab)) => {},
        Some(BackwardKind::MatVecMul(mb)) => {},
    }
}

/// At a buffer state where every operand node's output buffer already
/// holds its evaluation from `b0`, a node's forward value is exactly its
/// own evaluation from `b0`.
pub proof fn lemma_fw_value_is_eval(
    nodes: Seq<Node>,
    b0: Seq<Tensor>,
    cur: Seq<Tensor>,
    k: int,
)
    requires
        tape_wf(nodes, b0),
        tape_wf(nodes, cur),
        0 <= k < nodes.len(),
        cur.len() == b0.len(),
        forall|h: int| 0 <= h < b0.len() ==> cur[h].shape@ == b0[h].shape@,
        forall|j: int|
            0 <= j < k ==> (#[trigger] cur[nodes[j].out() as int]).data@ == eval(nodes, b0, j),
        forall|j: int|
            k <= j < nodes.len() ==> #[trigger] cur[nodes[j].out() as int] == b0[nodes[j].out() as int],
    ensures
        nodes[k].fw.fw_value(cur) == eval(nodes, b0, k),
{
    let n = nodes[k];
    assert(node_wf(nodes, b0, k));
    match n.fw {
        ForwardKind::Leaf(lf) => {
            assert(cur[nodes[k].out() as int] == b0[nodes[k].out() as int]);
        },
        ForwardKind::Addition(af) => {
            let op0 = n.operands@[0] as int;
            let op1 = n.operands@[1] as int;
            assert(cur[nodes[op0].out() as int].data@ == eval(nodes, b0, op0));
            assert(cur[nodes[op1].out() as int].data@ == eval(nodes, b0, op1));
        },
        ForwardKind::MatVecMul(mf) => {
            let op0 = n.operands@[0] as int;
            let op1 = n.operands@[1] as int;
            assert(cur[nodes[op0].out() as int].data@ == eval(nodes, b0, op0));
            assert(cur[nodes[op1].out() as int].data@ == eval(nodes, b0, op1));
            assert(cur[mf.output as int].shape@ == b0[mf.output as int].shape@);
        },
    }
}

/// A structurally well-formed node's output buffer handle is in bounds.
pub proof fn lemma_out_in_bounds(nodes: Seq<Node>, bufs: Seq<Tensor>, i: int)
    requires
        0 <= i < nodes.len(),
        node_wf(nodes, bufs, i),
    ensures
        nodes[i].out() < bufs.len(),
{
    match nodes[i].fw {
        ForwardKind::Leaf(_) => {},
        ForwardKind::Addition(_) => {},
        ForwardKind::MatVecMul(_) => {},
    }
}

/// Pushing a fresh buffer onto the arena preserves every node's
/// well-formedness clauses.
pub proof fn lemma_tape_wf_push_buf(nodes: Seq<Node>, bufs: Seq<Tensor>, t: Tensor)
    requires
        tape_wf(nodes, bufs),
        t.wf(),
    ensures
        tape_wf(nodes, bufs.push(t)),
{
    let bufs2 = bufs.push(t);
    assert forall|i: int| 0 <= i < nodes.len() implies node_wf(nodes, bufs2, i) by {
        assert(node_wf(nodes, bufs, i));
        assert(nodes[i].fw.fw_wf(bufs2)) by {
            match nodes[i].fw {
                ForwardKind::Leaf(_) => {},
                ForwardKind::Addition(_) => {},
                ForwardKind::MatVecMul(_) => {},
            }
        }
    }
    assert forall|i: int| 0 <= i < nodes.len() implies grad_ok(nodes, bufs2, i) by {
        assert(grad_ok(nodes, bufs, i));
        lemma_out_in_bounds(nodes, bufs, i);
        match nodes[i].grad() {
            Some(g) => {
                assert(bufs2[g as int] == bufs[g as int]);
                assert(bufs2[nodes[i].out() as int] == bufs[nodes[i].out() as int]);
            },
            None => {},
        }
    }
}

/// Appending a node that `fits` preserves the whole-tape invariant.
pub proof fn lemma_tape_wf_push_node(nodes: Seq<Node>, bufs: Seq<Tensor>, node: Node)
    requires
        tape_wf(nodes, bufs),
        fits(node, nodes, bufs),
    ensures
        tape_wf(nodes.push(node), bufs),
{
    let nodes2 = nodes.push(node);
    assert forall|i: int| 0 <= i < nodes2.len() implies node_wf(nodes2, bufs, i) by {
        if i < nodes.len() {
            assert(node_wf(nodes, bufs, i));
            assert forall|k: int| 0 <= k < nodes2[i].operands@.len() implies #[trigger] nodes2[i].operands@[k] < i by {
                assert(nodes[i].operands@[k] < i);
            }
            assert(nodes2[i].fw == nodes[i].fw);
            assert(node_wf(nodes2, bufs, i)) by {
                match nodes[i].fw {
                    ForwardKind::Leaf(_) => {},
                    ForwardKind::Addition(af) => {
                        assert(nodes[i].operands@[0] < i && nodes[i].operands@[1] < i);
                        assert(nodes2[nodes[i].operands@[0] as int] == nodes[nodes[i].operands@[0] as int]);
                        assert(nodes2[nodes[i].operands@[1] as int] == nodes[nodes[i].operands@[1] as int]);
                    },
                    ForwardKind::MatVecMul(mf) => {
                        assert(nodes[i].operands@[0] < i && nodes[i].operands@[1] < i);
                        assert(nodes2[nodes[i].operands@[0] as int] == nodes[nodes[i].operands@[0] as int]);
                        assert(nodes2[nodes[i].operands@[1] as int] == nodes[nodes[i].operands@[1] as int]);
                    },
                }
            }
        } else {
            assert(i == nodes.len());
            assert(node_wf(nodes2, bufs, i));
        }
    }
    assert forall|i: int| 0 <= i < nodes2.len() implies grad_ok(nodes2, bufs, i) by {
        if i < nodes.len() {
            assert(grad_ok(nodes, bufs, i));
        }
    }
}

} // verus!
