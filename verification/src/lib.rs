//! A reverse-mode automatic-differentiation engine over n-dimensional
//! integer tensors.
//!
//! Arithmetic calls on [`autograd::expr::Expression`] handles eagerly compute
//! their forward value and record a replayable node on an append-only
//! [`autograd::tape::Tape`]; insertion order doubles as topological order, so
//! a full `forward` replay and a reverse `backward` sweep are simple passes
//! over the node list.  A second, structure-only graph representation lives
//! in [`graph`]: it tracks shapes and operand wiring without any buffers.

pub mod autograd;
pub mod graph;
pub mod num;
pub mod tensor;
