//! Signed Q32.32 fixed-point arithmetic.
//!
//! A value `v` stands for the real number `v / FP_ONE`.  Products and
//! quotients round toward zero, and that rounding is part of every
//! contract in this crate, so results are pinned down exactly.

use vstd::prelude::*;

verus! {

/// One unit of the fixed-point scale: the representation of the real
/// number `1.0`.
pub const FP_ONE: i64 = 0x1_0000_0000;

/// Division by a positive divisor that rounds toward zero (the rounding of
/// Rust's integer `/`), written over non-negative Euclidean divisions only.
pub open spec fn sdiv(p: int, d: int) -> int
    recommends
        d >= 1,
{
    if p >= 0 {
        p / d
    } else {
        -((-p) / d)
    }
}

/// Division by `FP_ONE` rounding toward zero: the final step of every
/// fixed-point product.
pub open spec fn sdiv_fp(p: int) -> int {
    sdiv(p, FP_ONE as int)
}

/// The product of two values in the `i64` range fits the `i128` carrier.
pub proof fn lemma_i64_mul_fits(a: int, b: int)
    by (nonlinear_arith)
    requires
        -0x8000_0000_0000_0000 <= a <= 0x7fff_ffff_ffff_ffff,
        -0x8000_0000_0000_0000 <= b <= 0x7fff_ffff_ffff_ffff,
    ensures
        -0x4000_0000_0000_0000_0000_0000_0000_0000 <= a * b
            <= 0x4000_0000_0000_0000_0000_0000_0000_0000,
{
}

/// Quotient `p / d` rounding toward zero.
pub fn div_trunc(p: i128, d: i128) -> (r: i128)
    requires
        p > i128::MIN,
        d >= 1,
    ensures
        r == sdiv(p as int, d as int),
{
    if p >= 0 {
        let q: u128 = (p as u128) / (d as u128);
        q as i128
    } else {
        let n: u128 = (-p) as u128;
        let q: u128 = n / (d as u128);
        -(q as i128)
    }
}

/// Quotient `p / FP_ONE` rounding toward zero.
pub fn div_fp(p: i128) -> (r: i128)
    requires
        p > i128::MIN,
    ensures
        r == sdiv_fp(p as int),
{
    div_trunc(p, FP_ONE as i128)
}

} // verus!
