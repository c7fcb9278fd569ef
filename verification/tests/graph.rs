//! Tests of the structure-only computation graph: wiring, shape checks,
//! operand iteration and the topological sort.

use tapegrad::graph::comp_graph::Graph;
use tapegrad::graph::graph_ops::Operation;

#[test]
fn ex_iterator() {
    let mut comp_graph = Graph::new();
    let a = comp_graph.zeros(&[2, 3], true).unwrap();
    let b = comp_graph.zeros(&[2, 3], false).unwrap();

    let c = comp_graph.add(a, b).unwrap();
    let d = comp_graph.sub(a, b).unwrap();

    let mut c_children: Vec<usize> = vec![];
    let mut it = comp_graph.nodes[c].op.iter();
    while let Some(x) = it.next() {
        c_children.push(x);
    }
    let mut d_children: Vec<usize> = vec![];
    let mut it = comp_graph.nodes[d].op.iter();
    while let Some(x) = it.next() {
        d_children.push(x);
    }
    assert_eq!(vec![0, 1], c_children);
    assert_eq!(vec![0, 1], d_children);
}

#[test]
fn zeros_assigns_increasing_ids() {
    let mut g = Graph::new();
    let a = g.zeros(&[2], false).unwrap();
    let b = g.zeros(&[2], true).unwrap();
    assert_eq!(a, 0);
    assert_eq!(b, 1);
    assert!(!g.nodes[a].requires_grad());
    assert!(g.nodes[b].requires_grad());
}

#[test]
fn add_requires_identical_shapes() {
    let mut g = Graph::new();
    let a = g.zeros(&[2, 3], false).unwrap();
    let b = g.zeros(&[3, 2], false).unwrap();
    assert!(g.add(a, b).is_none());
    assert!(g.sub(a, b).is_none());
    let c = g.zeros(&[2, 3], false).unwrap();
    assert!(g.add(a, c).is_some());
}

#[test]
fn mm_shapes() {
    let mut g = Graph::new();
    let a = g.zeros(&[2, 3], false).unwrap();
    let b = g.zeros(&[3, 4], false).unwrap();
    let c = g.mm(a, b).unwrap();
    assert_eq!(g.nodes[c].tensor.sizes, vec![2, 4]);
    assert!(g.mm(b, a).is_none());
}

#[test]
fn mv_shapes() {
    let mut g = Graph::new();
    let a = g.zeros(&[2, 3], false).unwrap();
    let x = g.zeros(&[3], false).unwrap();
    let y = g.mv(a, x).unwrap();
    assert_eq!(g.nodes[y].tensor.sizes, vec![2]);
    let bad = g.zeros(&[2], false).unwrap();
    assert!(g.mv(a, bad).is_none());
}

#[test]
fn unary_ops_share_dimensions() {
    let mut g = Graph::new();
    let a = g.zeros(&[4, 5], true).unwrap();
    let t = g.tanh(a).unwrap();
    let r = g.relu(a).unwrap();
    let s = g.sigmoid(a).unwrap();
    assert_eq!(g.nodes[t].tensor.sizes, vec![4, 5]);
    assert_eq!(g.nodes[r].tensor.sizes, vec![4, 5]);
    assert_eq!(g.nodes[s].tensor.sizes, vec![4, 5]);
    assert!(g.nodes[t].requires_grad());
}

#[test]
fn forward_refs_record_consumers() {
    let mut g = Graph::new();
    let a = g.zeros(&[2], false).unwrap();
    let b = g.zeros(&[2], false).unwrap();
    let c = g.add(a, b).unwrap();
    let d = g.add(a, b).unwrap();
    assert_eq!(g.nodes[a].forward_refs, vec![c, d]);
    assert_eq!(g.nodes[b].forward_refs, vec![c, d]);
    assert!(g.nodes[c].forward_refs.is_empty());
}

#[test]
fn topsort_ends_with_the_root() {
    let mut g = Graph::new();
    let a = g.zeros(&[2], true).unwrap();
    let b = g.zeros(&[2], false).unwrap();
    let c = g.add(a, b).unwrap();
    let d = g.sub(a, b).unwrap();
    let e = g.add(c, d).unwrap();
    assert_eq!(g.topsort_backward(c), vec![a, b, c]);
    assert_eq!(g.topsort_backward(d), vec![a, b, d]);
    assert_eq!(g.topsort_backward(e), vec![a, b, c, d, e]);
    assert_eq!(g.topsort_backward(a), vec![a]);
}

#[test]
fn operand_iterator_walks_once() {
    let mut g = Graph::new();
    let a = g.zeros(&[1], false).unwrap();
    let t = g.tanh(a).unwrap();
    let mut it = g.nodes[t].op.iter();
    assert_eq!(it.next(), Some(a));
    assert_eq!(it.next(), None);
    let mut leaf_it = g.nodes[a].op.iter();
    assert_eq!(leaf_it.next(), None);
}
