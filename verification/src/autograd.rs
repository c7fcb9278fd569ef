//! The define-by-run tape: the authoritative reverse-mode engine.
//!
//! Arithmetic on [`expr::Expression`] handles eagerly computes forward
//! values and records replayable [`tape::Node`]s on an append-only
//! [`tape::Tape`].  Buffers live in an arena owned by the tape and are
//! addressed by stable indices, so several nodes may reference the same
//! buffer while exclusive mutable access is enforced at compile time.

pub mod addition;
pub mod expr;
pub mod leaf;
pub mod matvecmul;
pub mod operations;
pub mod tape;
