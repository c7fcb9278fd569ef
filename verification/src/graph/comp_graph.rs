//! The structure-only computation graph: variables, wiring, and a
//! recursive topological sort.
//!
//! A [`Graph`] owns a list of [`Variable`]s.  Identifiers are assigned in
//! insertion order, every operand index is strictly below its consumer's
//! index, and each variable records which later variables read it.

use vstd::prelude::*;

use crate::graph::addition::Addition;
use crate::graph::graph_ops::{Operation, OperandIter};
use crate::graph::leaf::Leaf;
use crate::graph::matmatmul::MatMatMul;
use crate::graph::matvecmul::MatVecMul;
use crate::graph::relu::ReLU;
use crate::graph::sigmoid::Sigmoid;
use crate::graph::subtraction::Subtraction;
use crate::graph::tanh::Tanh;
use crate::graph::tensor::TensorView;
use crate::tensor::{prod, shape_ok};

verus! {

/// The closed union of graph operations, dispatched exhaustively.
#[derive(Debug)]
pub enum GraphOp {
    Leaf(Leaf),
    Addition(Addition),
    Subtraction(Subtraction),
    MatMatMul(MatMatMul),
    MatVecMul(MatVecMul),
    ReLU(ReLU),
    Sigmoid(Sigmoid),
    Tanh(Tanh),
}

impl Operation for GraphOp {
    open spec fn operand_ids(&self) -> Seq<usize> {
        match self {
            GraphOp::Leaf(op) => op.operand_ids(),
            GraphOp::Addition(op) => op.operand_ids(),
            GraphOp::Subtraction(op) => op.operand_ids(),
            GraphOp::MatMatMul(op) => op.operand_ids(),
            GraphOp::MatVecMul(op) => op.operand_ids(),
            GraphOp::ReLU(op) => op.operand_ids(),
            GraphOp::Sigmoid(op) => op.operand_ids(),
            GraphOp::Tanh(op) => op.operand_ids(),
        }
    }

    fn iter<'a>(&'a self) -> (it: OperandIter<'a>) {
        match self {
            GraphOp::Leaf(op) => op.iter(),
            GraphOp::Addition(op) => op.iter(),
            GraphOp::Subtraction(op) => op.iter(),
            GraphOp::MatMatMul(op) => op.iter(),
            GraphOp::MatVecMul(op) => op.iter(),
            GraphOp::ReLU(op) => op.iter(),
            GraphOp::Sigmoid(op) => op.iter(),
            GraphOp::Tanh(op) => op.iter(),
        }
    }
}

/// One graph entry: a shape view, the operation that produced it, the
/// variables that read it, and an optional gradient view.
#[derive(Debug)]
pub struct Variable {
    /// The shape-and-strides view of the variable's storage.
    pub tensor: TensorView,
    /// The variable's index in the graph.
    pub id: usize,
    /// The operation that produced this variable.
    pub op: GraphOp,
    /// Indices of the later variables that read this one.
    pub forward_refs: Vec<usize>,
    /// A view for the variable's gradient, if gradients are tracked.
    pub grad: Option<TensorView>,
}

impl Variable {
    /// True iff a gradient view is attached.
    pub fn requires_grad(&self) -> (r: bool)
        ensures
            r == (self.grad is Some),
    {
        match self.grad {
            Some(_) => true,
            _ => false,
        }
    }

    /// Builds a variable, attaching a same-shaped gradient view when
    /// gradient tracking is requested.
    fn new(tensor: TensorView, id: usize, op: GraphOp, requires_grad: bool) -> (v: Variable)
        requires
            tensor.wf(),
        ensures
            v.tensor == tensor,
            v.id == id,
            v.op == op,
            v.forward_refs@.len() == 0,
            (v.grad is Some) == requires_grad,
            match v.grad {
                Some(g) => g.wf() && g.sizes@ == tensor.sizes@,
                None => true,
            },
    {
        let grad = if requires_grad {
            Some(tensor.gen_from_same())
        } else {
            None
        };
        Variable { tensor, id, op, forward_refs: Vec::new(), grad }
    }
}

/// Structural well-formedness of variable `i`: its identifier matches its
/// position, its views are well-formed, its operands lie strictly below
/// it, and its forward references lie strictly above it.
pub open spec fn var_wf(nodes: Seq<Variable>, i: int) -> bool {
    let v = nodes[i];
    &&& v.id == i
    &&& v.tensor.wf()
    &&& match v.grad {
        Some(g) => g.wf() && g.sizes@ == v.tensor.sizes@,
        None => true,
    }
    &&& (forall|k: int|
        0 <= k < v.op.operand_ids().len() ==> (#[trigger] v.op.operand_ids()[k]) < i)
    &&& (forall|k: int|
        0 <= k < v.forward_refs@.len() ==> i < (#[trigger] v.forward_refs@[k]) < nodes.len())
}

/// Well-formedness of the whole variable list.
pub open spec fn graph_wf(nodes: Seq<Variable>) -> bool {
    forall|i: int| 0 <= i < nodes.len() ==> var_wf(nodes, i)
}

/// Everything of a variable except its forward references.
pub open spec fn same_but_refs(a: Variable, b: Variable) -> bool {
    &&& b.tensor == a.tensor
    &&& b.id == a.id
    &&& b.op == a.op
    &&& b.grad == a.grad
}

/// The structure-only computation graph.
#[derive(Debug)]
pub struct Graph {
    /// The variables, in insertion order.
    pub nodes: Vec<Variable>,
    /// The identifier the next inserted variable will get.
    pub next_id: usize,
}

impl Graph {
    /// The graph's structural invariant.
    pub open spec fn wf(&self) -> bool {
        &&& self.next_id == self.nodes@.len()
        &&& graph_wf(self.nodes@)
    }

    /// Creates an empty graph.
    pub fn new() -> (g: Graph)
        ensures
            g.wf(),
            g.nodes@.len() == 0,
    {
        Graph { nodes: vec![], next_id: 0 }
    }

    /// Appends a freshly built variable and returns its identifier.
    fn push_var(&mut self, tensor: TensorView, op: GraphOp, requires_grad: bool) -> (id: usize)
        requires
            old(self).wf(),
            old(self).nodes@.len() < usize::MAX,
            tensor.wf(),
            forall|k: int|
                0 <= k < op.operand_ids().len() ==> (#[trigger] op.operand_ids()[k]) < old(
                    self,
                ).nodes@.len(),
        ensures
            final(self).wf(),
            id == old(self).nodes@.len(),
            final(self).nodes@.len() == old(self).nodes@.len() + 1,
            forall|j: int|
                0 <= j < old(self).nodes@.len() ==> final(self).nodes@[j] == old(self).nodes@[j],
            final(self).nodes@[id as int].tensor == tensor,
            final(self).nodes@[id as int].id == id,
            final(self).nodes@[id as int].op == op,
            final(self).nodes@[id as int].forward_refs@.len() == 0,
            (final(self).nodes@[id as int].grad is Some) == requires_grad,
    {
        let var_id = self.next_id;
        let var = Variable::new(tensor, var_id, op, requires_grad);
        self.next_id = self.next_id + 1;
        self.nodes.push(var);
        proof {
            let nodes2 = self.nodes@;
            assert forall|i: int| 0 <= i < nodes2.len() implies var_wf(nodes2, i) by {
                if i < nodes2.len() - 1 {
                    assert(var_wf(old(self).nodes@, i));
                    assert(nodes2[i] == old(self).nodes@[i]);
                }
            }
        }
        var_id
    }

    /// Records that variable `j` is read by the later variable `id`.
    fn add_ref(&mut self, j: usize, id: usize)
        requires
            old(self).wf(),
            j < id < old(self).nodes@.len(),
        ensures
            final(self).wf(),
            final(self).nodes@.len() == old(self).nodes@.len(),
            final(self).next_id == old(self).next_id,
            forall|i: int|
                0 <= i < old(self).nodes@.len() && i != j ==> final(self).nodes@[i] == old(
                    self,
                ).nodes@[i],
            same_but_refs(old(self).nodes@[j as int], final(self).nodes@[j as int]),
            final(self).nodes@[j as int].forward_refs@ == old(
                self,
            ).nodes@[j as int].forward_refs@.push(id),
    {
        let v = &mut self.nodes[j];
        v.forward_refs.push(id);
        proof {
            let nodes2 = self.nodes@;
            assert forall|i: int| 0 <= i < nodes2.len() implies var_wf(nodes2, i) by {
                assert(var_wf(old(self).nodes@, i));
                if i != j {
                    assert(nodes2[i] == old(self).nodes@[i]);
                }
            }
        }
    }

    /// Generates a leaf variable of the given dimensions, standing for a
    /// zero-initialized tensor.
    pub fn zeros(&mut self, dim: &[usize], requires_grad: bool) -> (r: Option<usize>)
        requires
            old(self).wf(),
            old(self).nodes@.len() < usize::MAX,
            shape_ok(dim@),
            prod(dim@) <= usize::MAX,
        ensures
            final(self).wf(),
            (r matches Some(id) && id == old(self).nodes@.len()),
            final(self).nodes@.len() == old(self).nodes@.len() + 1,
            forall|j: int|
                0 <= j < old(self).nodes@.len() ==> final(self).nodes@[j] == old(self).nodes@[j],
            final(self).nodes@[old(self).nodes@.len() as int].tensor.sizes@ == dim@,
            (final(self).nodes@[old(self).nodes@.len() as int].op matches GraphOp::Leaf(_)),
            final(self).nodes@[old(self).nodes@.len() as int].op.operand_ids().len() == 0,
            (final(self).nodes@[old(self).nodes@.len() as int].grad is Some) == requires_grad,
    {
        let var_id = self.push_var(
            TensorView::zeros_from_dimension(dim),
            GraphOp::Leaf(Leaf::new()),
            requires_grad,
        );
        Some(var_id)
    }

    /// The sum of two graph variables; they must have the same
    /// dimensions, else no variable is generated.
    pub fn add(&mut self, x_id: usize, y_id: usize) -> (r: Option<usize>)
        requires
            old(self).wf(),
            old(self).nodes@.len() < usize::MAX,
            x_id < old(self).nodes@.len(),
            y_id < old(self).nodes@.len(),
        ensures
            final(self).wf(),
            match r {
                Some(id) => {
                    &&& old(self).nodes@[x_id as int].tensor.sizes@ == old(self).nodes@[y_id as int].tensor.sizes@
                    &&& id == old(self).nodes@.len()
                    &&& final(self).nodes@.len() == old(self).nodes@.len() + 1
                    &&& (forall|j: int|
                        0 <= j < old(self).nodes@.len() && j != x_id && j != y_id ==> final(self).nodes@[j] == old(self).nodes@[j])
                    &&& (final(self).nodes@[id as int].op matches GraphOp::Addition(a)
                        && a.operand_ids() == seq![x_id, y_id])
                    &&& final(self).nodes@[id as int].tensor.sizes@ == old(self).nodes@[x_id as int].tensor.sizes@
                    &&& ((final(self).nodes@[id as int].grad is Some) == (old(
                        self,
                    ).nodes@[x_id as int].grad is Some || old(self).nodes@[y_id as int].grad is Some))
                    &&& same_but_refs(old(self).nodes@[x_id as int], final(self).nodes@[x_id as int])
                    &&& same_but_refs(old(self).nodes@[y_id as int], final(self).nodes@[y_id as int])
                    &&& (x_id != y_id ==> final(self).nodes@[x_id as int].forward_refs@ == old(
                        self,
                    ).nodes@[x_id as int].forward_refs@.push(id) && final(self).nodes@[y_id as int].forward_refs@ == old(self).nodes@[y_id as int].forward_refs@.push(
                        id,
                    ))
                    &&& (x_id == y_id ==> final(self).nodes@[x_id as int].forward_refs@ == old(
                        self,
                    ).nodes@[x_id as int].forward_refs@.push(id).push(id))
                },
                None => {
                    &&& old(self).nodes@[x_id as int].tensor.sizes@ != old(self).nodes@[y_id as int].tensor.sizes@
                    &&& final(self).nodes@ == old(self).nodes@
                    &&& final(self).next_id == old(self).next_id
                },
            },
    {
        proof {
            assert(var_wf(self.nodes@, x_id as int));
            assert(var_wf(self.nodes@, y_id as int));
        }
        if !self.nodes[x_id].tensor.shares_dim(&self.nodes[y_id].tensor) {
            return None;
        }
        let tview = self.nodes[x_id].tensor.gen_from_same();
        let rg = self.nodes[x_id].requires_grad() || self.nodes[y_id].requires_grad();
        let var_id = self.push_var(tview, GraphOp::Addition(Addition::new(x_id, y_id)), rg);
        self.add_ref(x_id, var_id);
        self.add_ref(y_id, var_id);
        Some(var_id)
    }

    /// The difference of two graph variables; they must have the same
    /// dimensions, else no variable is generated.
    pub fn sub(&mut self, x_id: usize, y_id: usize) -> (r: Option<usize>)
        requires
            old(self).wf(),
            old(self).nodes@.len() < usize::MAX,
            x_id < old(self).nodes@.len(),
            y_id < old(self).nodes@.len(),
        ensures
            final(self).wf(),
            match r {
                Some(id) => {
                    &&& old(self).nodes@[x_id as int].tensor.sizes@ == old(self).nodes@[y_id as int].tensor.sizes@
                    &&& id == old(self).nodes@.len()
                    &&& final(self).nodes@.len() == old(self).nodes@.len() + 1
                    &&& (forall|j: int|
                        0 <= j < old(self).nodes@.len() && j != x_id && j != y_id ==> final(self).nodes@[j] == old(self).nodes@[j])
                    &&& (final(self).nodes@[id as int].op matches GraphOp::Subtraction(a)
                        && a.operand_ids() == seq![x_id, y_id])
                    &&& final(self).nodes@[id as int].tensor.sizes@ == old(self).nodes@[x_id as int].tensor.sizes@
                    &&& ((final(self).nodes@[id as int].grad is Some) == (old(
                        self,
                    ).nodes@[x_id as int].grad is Some || old(self).nodes@[y_id as int].grad is Some))
                    &&& same_but_refs(old(self).nodes@[x_id as int], final(self).nodes@[x_id as int])
                    &&& same_but_refs(old(self).nodes@[y_id as int], final(self).nodes@[y_id as int])
                    &&& (x_id != y_id ==> final(self).nodes@[x_id as int].forward_refs@ == old(
                        self,
                    ).nodes@[x_id as int].forward_refs@.push(id) && final(self).nodes@[y_id as int].forward_refs@ == old(self).nodes@[y_id as int].forward_refs@.push(
                        id,
                    ))
                    &&& (x_id == y_id ==> final(self).nodes@[x_id as int].forward_refs@ == old(
                        self,
                    ).nodes@[x_id as int].forward_refs@.push(id).push(id))
                },
                None => {
                    &&& old(self).nodes@[x_id as int].tensor.sizes@ != old(self).nodes@[y_id as int].tensor.sizes@
                    &&& final(self).nodes@ == old(self).nodes@
                    &&& final(self).next_id == old(self).next_id
                },
            },
    {
        proof {
            assert(var_wf(self.nodes@, x_id as int));
            assert(var_wf(self.nodes@, y_id as int));
        }
        if !self.nodes[x_id].tensor.shares_dim(&self.nodes[y_id].tensor) {
            return None;
        }
        let tview = self.nodes[x_id].tensor.gen_from_same();
        let rg = self.nodes[x_id].requires_grad() || self.nodes[y_id].requires_grad();
        let var_id = self.push_var(tview, GraphOp::Subtraction(Subtraction::new(x_id, y_id)), rg);
        self.add_ref(x_id, var_id);
        self.add_ref(y_id, var_id);
        Some(var_id)
    }

    /// The matrix-matrix product of two rank-2 graph variables; the
    /// column count of `x_id` must equal the row count of `y_id`, else no
    /// variable is generated.  The result has the rows of `x_id` and the
    /// columns of `y_id`.
    pub fn mm(&mut self, x_id: usize, y_id: usize) -> (r: Option<usize>)
        requires
            old(self).wf(),
            old(self).nodes@.len() < usize::MAX,
            x_id < old(self).nodes@.len(),
            y_id < old(self).nodes@.len(),
            old(self).nodes@[x_id as int].tensor.sizes@.len() == 2 && old(
                self,
            ).nodes@[y_id as int].tensor.sizes@.len() == 2 ==> old(
                self,
            ).nodes@[x_id as int].tensor.sizes@[0] * old(self).nodes@[y_id as int].tensor.sizes@[1]
                <= usize::MAX,
        ensures
            final(self).wf(),
            match r {
                Some(id) => {
                    &&& mm_shapes_ok(
                        old(self).nodes@[x_id as int].tensor.sizes@,
                        old(self).nodes@[y_id as int].tensor.sizes@,
                    )
                    &&& id == old(self).nodes@.len()
                    &&& final(self).nodes@.len() == old(self).nodes@.len() + 1
                    &&& (forall|j: int|
                        0 <= j < old(self).nodes@.len() && j != x_id && j != y_id ==> final(self).nodes@[j] == old(self).nodes@[j])
                    &&& (final(self).nodes@[id as int].op matches GraphOp::MatMatMul(a)
                        && a.operand_ids() == seq![x_id, y_id])
                    &&& final(self).nodes@[id as int].tensor.sizes@ =~= seq![
                        old(self).nodes@[x_id as int].tensor.sizes@[0],
                        old(self).nodes@[y_id as int].tensor.sizes@[1],
                    ]
                    &&& ((final(self).nodes@[id as int].grad is Some) == (old(
                        self,
                    ).nodes@[x_id as int].grad is Some || old(self).nodes@[y_id as int].grad is Some))
                    &&& same_but_refs(old(self).nodes@[x_id as int], final(self).nodes@[x_id as int])
                    &&& same_but_refs(old(self).nodes@[y_id as int], final(self).nodes@[y_id as int])
                    &&& (x_id != y_id ==> final(self).nodes@[x_id as int].forward_refs@ == old(
                        self,
                    ).nodes@[x_id as int].forward_refs@.push(id) && final(self).nodes@[y_id as int].forward_refs@ == old(self).nodes@[y_id as int].forward_refs@.push(
                        id,
                    ))
                    &&& (x_id == y_id ==> final(self).nodes@[x_id as int].forward_refs@ == old(
                        self,
                    ).nodes@[x_id as int].forward_refs@.push(id).push(id))
                },
                None => {
                    &&& !mm_shapes_ok(
                        old(self).nodes@[x_id as int].tensor.sizes@,
                        old(self).nodes@[y_id as int].tensor.sizes@,
                    )
                    &&& final(self).nodes@ == old(self).nodes@
                    &&& final(self).next_id == old(self).next_id
                },
            },
    {
        proof {
            assert(var_wf(self.nodes@, x_id as int));
            assert(var_wf(self.nodes@, y_id as int));
        }
        if !self.nodes[x_id].tensor.can_mm(&self.nodes[y_id].tensor) {
            return None;
        }
        let mut new_dim: Vec<usize> = Vec::new();
        new_dim.push(self.nodes[x_id].tensor.sizes[0]);
        new_dim.push(self.nodes[y_id].tensor.sizes[1]);
        proof {
            crate::tensor::lemma_prod_rank2(new_dim@);
        }
        let tview = TensorView::from_dimension(new_dim.as_slice());
        let rg = self.nodes[x_id].requires_grad() || self.nodes[y_id].requires_grad();
        let var_id = self.push_var(tview, GraphOp::MatMatMul(MatMatMul::new(x_id, y_id)), rg);
        self.add_ref(x_id, var_id);
        self.add_ref(y_id, var_id);
        proof {
            assert(final(self).nodes@[var_id as int].tensor.sizes@ =~= seq![
                old(self).nodes@[x_id as int].tensor.sizes@[0],
                old(self).nodes@[y_id as int].tensor.sizes@[1],
            ]);
        }
        Some(var_id)
    }

    /// The matrix-vector product of a rank-2 and a rank-1 graph variable;
    /// the matrix's column count must equal the vector's length, else no
    /// variable is generated.  The result is rank-1 with the matrix's row
    /// count.
    pub fn mv(&mut self, x_id: usize, y_id: usize) -> (r: Option<usize>)
        requires
            old(self).wf(),
            old(self).nodes@.len() < usize::MAX,
            x_id < old(self).nodes@.len(),
            y_id < old(self).nodes@.len(),
        ensures
            final(self).wf(),
            match r {
                Some(id) => {
                    &&& mv_view_ok(
                        old(self).nodes@[x_id as int].tensor.sizes@,
                        old(self).nodes@[y_id as int].tensor.sizes@,
                    )
                    &&& id == old(self).nodes@.len()
                    &&& final(self).nodes@.len() == old(self).nodes@.len() + 1
                    &&& (forall|j: int|
                        0 <= j < old(self).nodes@.len() && j != x_id && j != y_id ==> final(self).nodes@[j] == old(self).nodes@[j])
                    &&& (final(self).nodes@[id as int].op matches GraphOp::MatVecMul(a)
                        && a.operand_ids() == seq![x_id, y_id])
                    &&& final(self).nodes@[id as int].tensor.sizes@ =~= seq![
                        old(self).nodes@[x_id as int].tensor.sizes@[0],
                    ]
                    &&& ((final(self).nodes@[id as int].grad is Some) == (old(
                        self,
                    ).nodes@[x_id as int].grad is Some || old(self).nodes@[y_id as int].grad is Some))
                    &&& same_but_refs(old(self).nodes@[x_id as int], final(self).nodes@[x_id as int])
                    &&& same_but_refs(old(self).nodes@[y_id as int], final(self).nodes@[y_id as int])
                    &&& (x_id != y_id ==> final(self).nodes@[x_id as int].forward_refs@ == old(
                        self,
                    ).nodes@[x_id as int].forward_refs@.push(id) && final(self).nodes@[y_id as int].forward_refs@ == old(self).nodes@[y_id as int].forward_refs@.push(
                        id,
                    ))
                    &&& (x_id == y_id ==> final(self).nodes@[x_id as int].forward_refs@ == old(
                        self,
                    ).nodes@[x_id as int].forward_refs@.push(id).push(id))
                },
                None => {
                    &&& !mv_view_ok(
                        old(self).nodes@[x_id as int].tensor.sizes@,
                        old(self).nodes@[y_id as int].tensor.sizes@,
                    )
                    &&& final(self).nodes@ == old(self).nodes@
                    &&& final(self).next_id == old(self).next_id
                },
            },
    {
        proof {
            assert(var_wf(self.nodes@, x_id as int));
            assert(var_wf(self.nodes@, y_id as int));
        }
        if !self.nodes[x_id].tensor.can_mv(&self.nodes[y_id].tensor) {
            return None;
        }
        let mut new_dim: Vec<usize> = Vec::new();
        new_dim.push(self.nodes[x_id].tensor.sizes[0]);
        proof {
            crate::tensor::lemma_prod_rank1(new_dim@);
            crate::tensor::lemma_prod_rank2(self.nodes@[x_id as int].tensor.sizes@);
            let xs = self.nodes@[x_id as int].tensor.sizes@;
            assert(xs[0] <= xs[0] * xs[1]) by (nonlinear_arith)
                requires
                    xs[0] >= 0,
                    xs[1] >= 1,
            ;
        }
        let tview = TensorView::from_dimension(new_dim.as_slice());
        let rg = self.nodes[x_id].requires_grad() || self.nodes[y_id].requires_grad();
        let var_id = self.push_var(tview, GraphOp::MatVecMul(MatVecMul::new(x_id, y_id)), rg);
        self.add_ref(x_id, var_id);
        self.add_ref(y_id, var_id);
        proof {
            assert(final(self).nodes@[var_id as int].tensor.sizes@ =~= seq![
                old(self).nodes@[x_id as int].tensor.sizes@[0],
            ]);
        }
        Some(var_id)
    }

    /// A pointwise hyperbolic tangent of one graph variable; the result
    /// shares its operand's dimensions.
    pub fn tanh(&mut self, x_id: usize) -> (r: Option<usize>)
        requires
            old(self).wf(),
            old(self).nodes@.len() < usize::MAX,
            x_id < old(self).nodes@.len(),
        ensures
            final(self).wf(),
            (r matches Some(id) && id == old(self).nodes@.len()),
            final(self).nodes@.len() == old(self).nodes@.len() + 1,
            forall|j: int|
                0 <= j < old(self).nodes@.len() && j != x_id ==> final(self).nodes@[j] == old(
                    self,
                ).nodes@[j],
            (final(self).nodes@[old(self).nodes@.len() as int].op matches GraphOp::Tanh(a)
                && a.operand_ids() == seq![x_id]),
            final(self).nodes@[old(self).nodes@.len() as int].tensor.sizes@ == old(
                self,
            ).nodes@[x_id as int].tensor.sizes@,
            ((final(self).nodes@[old(self).nodes@.len() as int].grad is Some) == (old(
                self,
            ).nodes@[x_id as int].grad is Some)),
            same_but_refs(old(self).nodes@[x_id as int], final(self).nodes@[x_id as int]),
            final(self).nodes@[x_id as int].forward_refs@ == old(
                self,
            ).nodes@[x_id as int].forward_refs@.push((old(self).nodes@.len() as usize)),
    {
        proof {
            assert(var_wf(self.nodes@, x_id as int));
        }
        let tview = self.nodes[x_id].tensor.gen_from_same();
        let rg = self.nodes[x_id].requires_grad();
        let var_id = self.push_var(tview, GraphOp::Tanh(Tanh::new(x_id)), rg);
        self.add_ref(x_id, var_id);
        Some(var_id)
    }

    /// A pointwise rectified linear unit of one graph variable; the
    /// result shares its operand's dimensions.
    pub fn relu(&mut self, x_id: usize) -> (r: Option<usize>)
        requires
            old(self).wf(),
            old(self).nodes@.len() < usize::MAX,
            x_id < old(self).nodes@.len(),
        ensures
            final(self).wf(),
            (r matches Some(id) && id == old(self).nodes@.len()),
            final(self).nodes@.len() == old(self).nodes@.len() + 1,
            forall|j: int|
                0 <= j < old(self).nodes@.len() && j != x_id ==> final(self).nodes@[j] == old(
                    self,
                ).nodes@[j],
            (final(self).nodes@[old(self).nodes@.len() as int].op matches GraphOp::ReLU(a)
                && a.operand_ids() == seq![x_id]),
            final(self).nodes@[old(self).nodes@.len() as int].tensor.sizes@ == old(
                self,
            ).nodes@[x_id as int].tensor.sizes@,
            ((final(self).nodes@[old(self).nodes@.len() as int].grad is Some) == (old(
                self,
            ).nodes@[x_id as int].grad is Some)),
            same_but_refs(old(self).nodes@[x_id as int], final(self).nodes@[x_id as int]),
            final(self).nodes@[x_id as int].forward_refs@ == old(
                self,
            ).nodes@[x_id as int].forward_refs@.push((old(self).nodes@.len() as usize)),
    {
        proof {
            assert(var_wf(self.nodes@, x_id as int));
        }
        let tview = self.nodes[x_id].tensor.gen_from_same();
        let rg = self.nodes[x_id].requires_grad();
        let var_id = self.push_var(tview, GraphOp::ReLU(ReLU::new(x_id)), rg);
        self.add_ref(x_id, var_id);
        Some(var_id)
    }

    /// A pointwise logistic sigmoid of one graph variable; the result
    /// shares its operand's dimensions.
    pub fn sigmoid(&mut self, x_id: usize) -> (r: Option<usize>)
        requires
            old(self).wf(),
            old(self).nodes@.len() < usize::MAX,
            x_id < old(self).nodes@.len(),
        ensures
            final(self).wf(),
            (r matches Some(id) && id == old(self).nodes@.len()),
            final(self).nodes@.len() == old(self).nodes@.len() + 1,
            forall|j: int|
                0 <= j < old(self).nodes@.len() && j != x_id ==> final(self).nodes@[j] == old(
                    self,
                ).nodes@[j],
            (final(self).nodes@[old(self).nodes@.len() as int].op matches GraphOp::Sigmoid(a)
                && a.operand_ids() == seq![x_id]),
            final(self).nodes@[old(self).nodes@.len() as int].tensor.sizes@ == old(
                self,
            ).nodes@[x_id as int].tensor.sizes@,
            ((final(self).nodes@[old(self).nodes@.len() as int].grad is Some) == (old(
                self,
            ).nodes@[x_id as int].grad is Some)),
            same_but_refs(old(self).nodes@[x_id as int], final(self).nodes@[x_id as int]),
            final(self).nodes@[x_id as int].forward_refs@ == old(
                self,
            ).nodes@[x_id as int].forward_refs@.push((old(self).nodes@.len() as usize)),
    {
        proof {
            assert(var_wf(self.nodes@, x_id as int));
        }
        let tview = self.nodes[x_id].tensor.gen_from_same();
        let rg = self.nodes[x_id].requires_grad();
        let var_id = self.push_var(tview, GraphOp::Sigmoid(Sigmoid::new(x_id)), rg);
        self.add_ref(x_id, var_id);
        Some(var_id)
    }
}

/// The visited flags and output list after a depth-first visit of node
/// `id`: the node is marked, its unvisited operands are visited in
/// order, and the node itself is appended after all of them.
pub open spec fn dfs_node(
    nodes: Seq<Variable>,
    visited: Seq<bool>,
    list: Seq<usize>,
    id: int,
) -> (Seq<bool>, Seq<usize>)
    decreases id, 1int, 0int,
{
    if id < 0 || id >= nodes.len() {
        (visited, list)
    } else {
        let v1 = visited.update(id, true);
        let r = dfs_kids(nodes, v1, list, nodes[id].op.operand_ids(), 0, id);
        (r.0, r.1.push(id as usize))
    }
}

/// The visited flags and output list after walking the operand list
/// `ops` of node `id` from position `k` on, visiting each operand that
/// is unvisited and strictly below `id`.
pub open spec fn dfs_kids(
    nodes: Seq<Variable>,
    visited: Seq<bool>,
    list: Seq<usize>,
    ops: Seq<usize>,
    k: int,
    id: int,
) -> (Seq<bool>, Seq<usize>)
    decreases id, 0int, ops.len() - k,
{
    if k < 0 || k >= ops.len() || id < 0 {
        (visited, list)
    } else {
        let o = ops[k] as int;
        let r = if 0 <= o < id && o < visited.len() && !visited[o] {
            dfs_node(nodes, visited, list, o)
        } else {
            (visited, list)
        };
        dfs_kids(nodes, r.0, r.1, ops, k + 1, id)
    }
}

/// Whether `o` occurs in `l` strictly before position `p`.
pub open spec fn before(l: Seq<usize>, p: int, o: usize) -> bool {
    exists|q: int| 0 <= q < p && l[q] == o
}

/// The invariant a depth-first visit maintains: every listed node is in
/// bounds and marked visited, no node is listed twice, and every listed
/// node's operands are listed before it.
pub open spec fn dfs_inv(nodes: Seq<Variable>, v: Seq<bool>, l: Seq<usize>) -> bool {
    &&& v.len() == nodes.len()
    &&& (forall|p: int|
        0 <= p < l.len() ==> (#[trigger] l[p]) < nodes.len() && v[l[p] as int])
    &&& (forall|p: int, q: int| 0 <= p < q < l.len() ==> l[p] != l[q])
    &&& (forall|p: int, k: int|
        0 <= p < l.len() && 0 <= k < nodes[l[p] as int].op.operand_ids().len() ==> before(
            l,
            p,
            #[trigger] nodes[l[p] as int].op.operand_ids()[k],
        ))
}

/// A prefix keeps every element.
proof fn lemma_prefix_contains(a: Seq<usize>, b: Seq<usize>)
    requires
        a.is_prefix_of(b),
    ensures
        forall|x: usize| a.contains(x) ==> b.contains(x),
{
    assert forall|x: usize| a.contains(x) implies b.contains(x) by {
        let q = choose|q: int| 0 <= q < a.len() && a[q] == x;
        assert(b[q] == x);
    }
}

/// A depth-first visit of an unvisited node `id` preserves the
/// invariant, appends `id` last, marks only nodes at or below `id`, and
/// leaves no node visited-but-unlisted that was not already so.
proof fn lemma_dfs_node_props(nodes: Seq<Variable>, v: Seq<bool>, l: Seq<usize>, id: int)
    requires
        graph_wf(nodes),
        nodes.len() <= usize::MAX,
        0 <= id < nodes.len(),
        dfs_inv(nodes, v, l),
        !v[id],
        forall|x: int|
            0 <= x < nodes.len() && v[x] && !l.contains(x as usize) ==> x > id,
    ensures
        ({
            let r = dfs_node(nodes, v, l, id);
            &&& dfs_inv(nodes, r.0, r.1)
            &&& r.0.len() == v.len()
            &&& (forall|x: int| 0 <= x < v.len() && v[x] ==> r.0[x])
            &&& l.is_prefix_of(r.1)
            &&& r.1.len() > l.len()
            &&& r.1.last() == id as usize
            &&& (forall|x: int|
                0 <= x < nodes.len() && r.0[x] && !r.1.contains(x as usize) ==> v[x]
                    && !l.contains(x as usize))
            &&& (forall|x: usize| r.1.contains(x) && !l.contains(x) ==> !v[x as int])
        }),
    decreases id, 1int, 0int,
{
    let v1 = v.update(id, true);
    let ops = nodes[id].op.operand_ids();
    assert(dfs_inv(nodes, v1, l));
    assert forall|x: int|
        0 <= x < nodes.len() && v1[x] && !l.contains(x as usize) implies x >= id by {}
    lemma_dfs_kids_props(nodes, v1, l, ops, 0, id);
    let r = dfs_kids(nodes, v1, l, ops, 0, id);
    let out = dfs_node(nodes, v, l, id);
    assert(out == (r.0, r.1.push(id as usize)));
    lemma_prefix_contains(l, r.1);
    // `id` was visited at the start of the walk, so it is not among the
    // nodes the walk newly listed, and it was not listed before either.
    assert(!l.contains(id as usize)) by {
        if l.contains(id as usize) {
            let p = choose|p: int| 0 <= p < l.len() && l[p] == id as usize;
            assert(v[l[p] as int]);
        }
    }
    assert(!r.1.contains(id as usize)) by {
        if r.1.contains(id as usize) {
            assert(!v1[id]);
        }
    }
    let l2 = r.1.push(id as usize);
    assert(l2.last() == id as usize);
    assert(l.is_prefix_of(l2)) by {
        assert(forall|q: int| 0 <= q < l.len() ==> l2[q] == l[q]);
        assert(l2.subrange(0, l.len() as int) =~= l);
    }
    // The pushed node's operands were all listed by the walk: each is
    // strictly below `id`, and a visited-but-unlisted node sits at or
    // above `id`.
    assert(dfs_inv(nodes, r.0, l2)) by {
        assert(var_wf(nodes, id));
        assert forall|p: int| 0 <= p < l2.len() implies (#[trigger] l2[p]) < nodes.len()
            && r.0[l2[p] as int] by {
            if p < r.1.len() {
                assert(r.1[p] == l2[p]);
                assert(r.1[p] < nodes.len() && r.0[r.1[p] as int]);
            } else {
                assert(l2[p] == id as usize);
                assert(v1[id]);
            }
        }
        assert forall|p: int, k: int|
            0 <= p < l2.len() && 0 <= k < nodes[l2[p] as int].op.operand_ids().len() implies before(
            l2,
            p,
            nodes[l2[p] as int].op.operand_ids()[k],
        ) by {
            if p < r.1.len() {
                assert(before(r.1, p, nodes[r.1[p] as int].op.operand_ids()[k]));
                let q = choose|q: int|
                    0 <= q < p && r.1[q] == nodes[r.1[p] as int].op.operand_ids()[k];
                assert(l2[q] == r.1[q]);
            } else {
                assert(l2[p] == id as usize);
                let o = nodes[id].op.operand_ids()[k];
                assert(0 <= o < id);
                assert(r.1.contains(o));
                let q = choose|q: int| 0 <= q < r.1.len() && r.1[q] == o;
                assert(l2[q] == o);
            }
        }
        assert forall|p: int, q: int| 0 <= p < q < l2.len() implies l2[p] != l2[q] by {
            if q == l2.len() - 1 {
                assert(l2[q] == id as usize);
                assert(r.1.contains(r.1[p]) && r.1[p] == l2[p]);
            }
        }
    }
    assert forall|x: usize| l2.contains(x) && !l.contains(x) implies !v[x as int] by {
        if x == id as usize {
            assert(!v[id]);
        } else {
            let q = choose|q: int| 0 <= q < l2.len() && l2[q] == x;
            assert(q < r.1.len());
            assert(r.1.contains(x));
        }
    }
    assert forall|x: int| 0 <= x < v.len() && v[x] implies r.0[x] by {
        assert(v1[x]);
    }
    assert(out.1.len() > l.len());
    assert forall|x: int|
        0 <= x < nodes.len() && r.0[x] && !l2.contains(x as usize) implies v[x] && !l.contains(
        x as usize,
    ) by {
        assert(!r.1.contains(x as usize)) by {
            if r.1.contains(x as usize) {
                let q = choose|q: int| 0 <= q < r.1.len() && r.1[q] == x as usize;
                assert(l2[q] == x as usize);
            }
        }
        assert(v1[x] && !l.contains(x as usize));
        assert(x != id);
    }
}

/// Walking the operand list of node `id` from position `k` preserves the
/// invariant and ends with every in-range operand from `k` on listed.
proof fn lemma_dfs_kids_props(
    nodes: Seq<Variable>,
    v: Seq<bool>,
    l: Seq<usize>,
    ops: Seq<usize>,
    k: int,
    id: int,
)
    requires
        graph_wf(nodes),
        nodes.len() <= usize::MAX,
        0 <= id < nodes.len(),
        0 <= k,
        dfs_inv(nodes, v, l),
        forall|x: int|
            0 <= x < nodes.len() && v[x] && !l.contains(x as usize) ==> x >= id,
    ensures
        ({
            let r = dfs_kids(nodes, v, l, ops, k, id);
            &&& dfs_inv(nodes, r.0, r.1)
            &&& r.0.len() == v.len()
            &&& (forall|x: int| 0 <= x < v.len() && v[x] ==> r.0[x])
            &&& l.is_prefix_of(r.1)
            &&& (forall|x: int|
                0 <= x < nodes.len() && r.0[x] && !r.1.contains(x as usize) ==> v[x]
                    && !l.contains(x as usize))
            &&& (forall|x: usize| r.1.contains(x) && !l.contains(x) ==> !v[x as int])
            &&& (forall|j: int|
                k <= j < ops.len() && 0 <= (#[trigger] ops[j]) < id ==> r.1.contains(ops[j]))
        }),
    decreases id, 0int, ops.len() - k,
{
    if k >= ops.len() {
        assert(l.is_prefix_of(l)) by {
            assert(l.subrange(0, l.len() as int) =~= l);
        }
    } else {
        let o = ops[k] as int;
        let r1 = if 0 <= o < id && o < v.len() && !v[o] {
            lemma_dfs_node_props(nodes, v, l, o);
            dfs_node(nodes, v, l, o)
        } else {
            (v, l)
        };
        let rv1 = r1.0;
        let rl1 = r1.1;
        assert(l.is_prefix_of(rl1)) by {
            assert(l.subrange(0, l.len() as int) =~= l);
        }
        assert forall|x: int|
            0 <= x < nodes.len() && rv1[x] && !rl1.contains(x as usize) implies x >= id by {
            if 0 <= o < id && o < v.len() && !v[o] {
                assert(v[x] && !l.contains(x as usize));
            }
        }
        lemma_dfs_kids_props(nodes, rv1, rl1, ops, k + 1, id);
        let r = dfs_kids(nodes, v, l, ops, k, id);
        assert(r == dfs_kids(nodes, rv1, rl1, ops, k + 1, id));
        let rl = r.1;
        lemma_prefix_contains(l, rl1);
        lemma_prefix_contains(rl1, rl);
        assert(l.is_prefix_of(rl)) by {
            assert(forall|q: int| 0 <= q < l.len() ==> rl[q] == rl1[q] && rl1[q] == l[q]);
            assert(rl.subrange(0, l.len() as int) =~= l);
        }
        // The operand at position `k` ends up listed: either this step
        // visited it (it is then the last element pushed by that visit),
        // or it was visited earlier and, lying below `id`, cannot be a
        // visited-but-unlisted leftover.
        assert forall|j: int|
            k <= j < ops.len() && 0 <= (#[trigger] ops[j]) < id implies rl.contains(ops[j]) by {
            if j == k {
                if 0 <= o < id && o < v.len() && !v[o] {
                    assert(rl1.last() == ops[k]);
                    assert(rl1.contains(ops[k]));
                } else {
                    assert(v[o]);
                    assert(l.contains(ops[k]));
                }
            }
        }
        assert forall|x: usize| rl.contains(x) && !l.contains(x) implies !v[x as int] by {
            if rl1.contains(x) {
            } else {
                assert(0 <= (x as int) < v.len() ==> !rv1[x as int]);
            }
        }
    }
}

/// The sort really is topological: what [`Graph::topsort_backward`]
/// returns lists each variable once, every listed variable's operands
/// appear strictly before it, and the requested variable comes last.
pub proof fn lemma_topsort_is_topological(g: &Graph, var_id: usize)
    requires
        g.wf(),
        var_id < g.nodes@.len(),
    ensures
        ({
            let l = dfs_node(
                g.nodes@,
                Seq::new(g.nodes@.len(), |i: int| false),
                Seq::empty(),
                var_id as int,
            ).1;
            &&& l.len() > 0
            &&& l.last() == var_id
            &&& (forall|p: int| 0 <= p < l.len() ==> (#[trigger] l[p]) < g.nodes@.len())
            &&& (forall|p: int, q: int| 0 <= p < q < l.len() ==> l[p] != l[q])
            &&& (forall|p: int, k: int|
                0 <= p < l.len() && 0 <= k < g.nodes@[l[p] as int].op.operand_ids().len()
                    ==> before(l, p, #[trigger] g.nodes@[l[p] as int].op.operand_ids()[k]))
        }),
{
    vstd::std_specs::vec::axiom_spec_len(&g.nodes);
    let v0 = Seq::new(g.nodes@.len(), |i: int| false);
    let l0 = Seq::<usize>::empty();
    assert(dfs_inv(g.nodes@, v0, l0));
    lemma_dfs_node_props(g.nodes@, v0, l0, var_id as int);
}

impl Graph {
    /// Performs a depth-first topological sort of `var_id` and all the
    /// variables it transitively reads; the result lists every operand
    /// before its consumer and ends with `var_id` itself.
    pub fn topsort_backward(&self, var_id: usize) -> (r: Vec<usize>)
        requires
            self.wf(),
            var_id < self.nodes@.len(),
        ensures
            r@ == dfs_node(
                self.nodes@,
                Seq::new(self.nodes@.len(), |i: int| false),
                Seq::empty(),
                var_id as int,
            ).1,
    {
        let n = self.nodes.len();
        let mut visited: Vec<bool> = vec![false; n];
        let mut sorted_list: Vec<usize> = vec![];
        proof {
            assert(visited@ =~= Seq::new(self.nodes@.len(), |i: int| false));
            assert(sorted_list@ =~= Seq::<usize>::empty());
        }
        self.topsort_recursive(var_id, &mut visited, &mut sorted_list);
        sorted_list
    }

    /// One depth-first visit: marks `node_id`, recurses into its
    /// unvisited operands through the operand iterator, then appends
    /// `node_id`.  Terminates because operand indices strictly decrease.
    fn topsort_recursive(&self, node_id: usize, visited: &mut Vec<bool>, sorted_list: &mut Vec<usize>)
        requires
            self.wf(),
            node_id < self.nodes@.len(),
            old(visited)@.len() == self.nodes@.len(),
        ensures
            final(visited)@.len() == self.nodes@.len(),
            (final(visited)@, final(sorted_list)@) == dfs_node(
                self.nodes@,
                old(visited)@,
                old(sorted_list)@,
                node_id as int,
            ),
        decreases node_id,
    {
        visited[node_id] = true;
        let ghost v1 = visited@;
        let ghost l0 = sorted_list@;
        let ghost ops = self.nodes@[node_id as int].op.operand_ids();
        let mut it = self.nodes[node_id].op.iter();
        while it.op_num < it.operands.len()
            invariant
                self.wf(),
                node_id < self.nodes@.len(),
                it.operands@ == ops,
                ops == self.nodes@[node_id as int].op.operand_ids(),
                it.op_num <= ops.len(),
                visited@.len() == self.nodes@.len(),
                dfs_kids(self.nodes@, visited@, sorted_list@, ops, it.op_num as int, node_id as int)
                    == dfs_kids(self.nodes@, v1, l0, ops, 0, node_id as int),
            decreases ops.len() - it.op_num,
        {
            let ghost k: int = it.op_num as int;
            let ghost vcur = visited@;
            let ghost lcur = sorted_list@;
            let r = it.next();
            proof {
                assert(var_wf(self.nodes@, node_id as int));
                assert(ops[k] < node_id);
            }
            if let Some(o) = r {
                if !visited[o] {
                    self.topsort_recursive(o, visited, sorted_list);
                }
                proof {
                    assert(dfs_kids(self.nodes@, vcur, lcur, ops, k, node_id as int) == dfs_kids(
                        self.nodes@,
                        visited@,
                        sorted_list@,
                        ops,
                        k + 1,
                        node_id as int,
                    ));
                }
            }
        }
        let ghost vend = visited@;
        let ghost lend = sorted_list@;
        sorted_list.push(node_id);
        proof {
            assert(dfs_kids(self.nodes@, vend, lend, ops, ops.len() as int, node_id as int) == (
                vend,
                lend,
            ));
            assert((vend, lend) == dfs_kids(self.nodes@, v1, l0, ops, 0, node_id as int));
        }
    }
}

/// The dimensional contract of the matrix-matrix product.
pub open spec fn mm_shapes_ok(x: Seq<usize>, y: Seq<usize>) -> bool {
    &&& x.len() == 2
    &&& y.len() == 2
    &&& x[1] == y[0]
}

/// The dimensional contract of the matrix-vector product over views.
pub open spec fn mv_view_ok(x: Seq<usize>, y: Seq<usize>) -> bool {
    &&& x.len() == 2
    &&& y.len() == 1
    &&& x[1] == y[0]
}

} // verus!
