//! A structure-only computation graph.
//!
//! This representation dissociates the graph's wiring from any value
//! storage: a [`comp_graph::Variable`] carries only a shape-and-strides
//! view, the operation that produced it as a closed tagged union, and the
//! indices of its operands.  Node identifiers are assigned in insertion
//! order, so operand indices are strictly below their consumer's index
//! and a recursive topological sort terminates.

pub mod addition;
pub mod comp_graph;
pub mod graph_ops;
pub mod leaf;
pub mod matmatmul;
pub mod matvecmul;
pub mod relu;
pub mod sigmoid;
pub mod tanh;
pub mod tensor;
pub mod subtraction;
