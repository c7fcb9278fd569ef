//! Scalar arithmetic for tensor elements.
//!
//! Elements are `i64` values and every operation wraps around on overflow,
//! so each arithmetic step is total and deterministic.  The spec functions
//! here are the vocabulary that all tensor-level contracts are written in.

use vstd::prelude::*;

verus! {

/// Element addition: two's-complement wrap-around on overflow.
pub open spec fn wrap_add(a: i64, b: i64) -> i64 {
    vstd::wrapping::i64_specs::wrapping_add(a, b)
}

/// Element multiplication: two's-complement wrap-around on overflow.
pub open spec fn wrap_mul(a: i64, b: i64) -> i64 {
    vstd::wrapping::i64_specs::wrapping_mul(a, b)
}

/// Dot product of the first `n` entries of `a` and `b`, accumulated
/// left to right with wrapping arithmetic.
pub open spec fn dot_prefix(a: Seq<i64>, b: Seq<i64>, n: int) -> i64
    decreases n,
{
    if n <= 0 {
        0i64
    } else {
        wrap_add(dot_prefix(a, b, n - 1), wrap_mul(a[n - 1], b[n - 1]))
    }
}

/// Dot product of two equal-length element sequences.
pub open spec fn dot(a: Seq<i64>, b: Seq<i64>) -> i64 {
    dot_prefix(a, b, a.len() as int)
}

/// Executable wrapping addition.
pub fn wadd(a: i64, b: i64) -> (r: i64)
    ensures
        r == wrap_add(a, b),
{
    a.wrapping_add(b)
}

/// Executable wrapping multiplication.
pub fn wmul(a: i64, b: i64) -> (r: i64)
    ensures
        r == wrap_mul(a, b),
{
    a.wrapping_mul(b)
}

} // verus!
