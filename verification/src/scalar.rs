//! The scalar arithmetic that the numeric kernel is written against.
//!
//! The kernel never looks inside a scalar. Every operation on scalars is
//! handed in by the caller as a function, and every contract of the kernel
//! says which operation was applied to which operands, in which order. What
//! is proved therefore holds for any arithmetic; with IEEE-754 single
//! precision operations the kernel computes bit for bit what the formulas
//! prescribe.
//!
//! Constants are written as IEEE-754 single precision bit patterns and
//! turned into scalars by the caller's `from_bits`.

use vstd::prelude::*;

verus! {

/// Bit pattern of `0`.
pub const ZERO_BITS: u32 = 0x0000_0000;

/// Bit pattern of `1`.
pub const ONE_BITS: u32 = 0x3f80_0000;

/// Bit pattern of `4`.
pub const FOUR_BITS: u32 = 0x4080_0000;

/// Bit pattern of `16`.
pub const SIXTEEN_BITS: u32 = 0x4180_0000;

/// Bit pattern of the single precision value nearest to pi.
pub const PI_BITS: u32 = 0x4049_0fdb;

/// Bit pattern of the single precision value nearest to `1e-5`, the
/// tolerance on the squared length of a direction.
pub const TOLERANCE_BITS: u32 = 0x3727_c5ac;

/// Whether a conversion from bit patterns accepts every pattern.
pub open spec fn total_from_bits<T, B: Fn(u32) -> T>(from_bits: &B) -> bool {
    forall|bits: u32| from_bits.requires((bits,))
}

/// Whether a conversion from integers accepts every integer.
pub open spec fn total_from_int<T, I: Fn(i64) -> T>(from_int: &I) -> bool {
    forall|n: i64| from_int.requires((n,))
}

/// Whether a unary operation accepts every operand.
pub open spec fn total_unary<T, F: Fn(T) -> T>(op: &F) -> bool {
    forall|a: T| op.requires((a,))
}

/// Whether a binary operation accepts every pair of operands.
pub open spec fn total_binary<T, F: Fn(T, T) -> T>(op: &F) -> bool {
    forall|a: T, b: T| op.requires((a, b))
}

/// Whether a comparison accepts every pair of operands.
pub open spec fn total_comparison<T, F: Fn(T, T) -> bool>(op: &F) -> bool {
    forall|a: T, b: T| op.requires((a, b))
}

/// Whether a function of a direction's three components accepts every
/// triple.
pub open spec fn total_function<T, F: Fn(T, T, T) -> T>(func: &F) -> bool {
    forall|x: T, y: T, z: T| func.requires((x, y, z))
}

/// Whether a source of values can always be asked for the next one.
pub open spec fn total_source<V, G: Fn() -> V>(source: &G) -> bool {
    source.requires(())
}

/// Whether a conversion from bit patterns gives one result for each
/// pattern.
pub open spec fn deterministic_from_bits<T, B: Fn(u32) -> T>(from_bits: &B) -> bool {
    forall|bits: u32, r1: T, r2: T|
        #[trigger] from_bits.ensures((bits,), r1) && #[trigger] from_bits.ensures((bits,), r2)
            ==> r1 == r2
}

/// Whether a binary operation gives one result for each pair of operands.
pub open spec fn deterministic_binary<T, F: Fn(T, T) -> T>(op: &F) -> bool {
    forall|a: T, b: T, r1: T, r2: T|
        #[trigger] op.ensures((a, b), r1) && #[trigger] op.ensures((a, b), r2) ==> r1 == r2
}

/// Whether a comparison gives one answer for each pair of operands.
pub open spec fn deterministic_comparison<T, F: Fn(T, T) -> bool>(op: &F) -> bool {
    forall|a: T, b: T, r1: bool, r2: bool|
        #[trigger] op.ensures((a, b), r1) && #[trigger] op.ensures((a, b), r2) ==> r1 == r2
}

} // verus!
