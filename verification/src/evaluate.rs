//! The escape-time evaluator.
//!
//! A plane point `c = x + i*y` (Q32.32 components) seeds `z` with `c`
//! itself, then iterates `z <- z*z + c` while `|z|^2 <= 4` and the
//! iteration count is below the cap.  The count of completed steps is the
//! pixel's value; shading maps it to a luminance elsewhere.

use vstd::arithmetic::div_mod::{lemma_div_is_ordered, lemma_div_multiples_vanish};
use vstd::prelude::*;

use crate::fixed::{sdiv_fp, FP_ONE};

verus! {

/// Real part of `z*z + c` in Q32.32: `(zr^2 - zi^2) / FP_ONE + cr`,
/// with each square divided separately (squares are non-negative, so the
/// rounding direction is fixed).
pub open spec fn step_re(zr: int, zi: int, cr: int) -> int {
    (zr * zr) / (FP_ONE as int) - (zi * zi) / (FP_ONE as int) + cr
}

/// Imaginary part of `z*z + c` in Q32.32: `2*zr*zi / FP_ONE + ci`,
/// rounding toward zero.
pub open spec fn step_im(zr: int, zi: int, ci: int) -> int {
    sdiv_fp(2 * zr * zi) + ci
}

/// `|z|^2` in Q32.32, each square divided separately.
pub open spec fn norm_sqr_fp(zr: int, zi: int) -> int {
    (zr * zr) / (FP_ONE as int) + (zi * zi) / (FP_ONE as int)
}

/// Number of iteration steps `z <- z*z + c` taken from state `(zr, zi)`
/// before `|z|^2` exceeds 4, capped at `fuel`.
pub open spec fn escape_steps(zr: int, zi: int, cr: int, ci: int, fuel: nat) -> nat
    decreases fuel,
{
    if fuel == 0 {
        0
    } else if norm_sqr_fp(zr, zi) > 4 * (FP_ONE as int) {
        0
    } else {
        1 + escape_steps(step_re(zr, zi, cr), step_im(zr, zi, ci), cr, ci, (fuel - 1) as nat)
    }
}

/// The escape count of plane point `(x, y)`: iteration starts at `z = c`.
pub open spec fn escape_count(x: int, y: int, max_iterations: nat) -> nat {
    escape_steps(x, y, x, y, max_iterations)
}

/// The count never exceeds the cap.
pub proof fn lemma_escape_steps_le_fuel(zr: int, zi: int, cr: int, ci: int, fuel: nat)
    ensures
        escape_steps(zr, zi, cr, ci, fuel) <= fuel,
    decreases fuel,
{
    if fuel > 0 && norm_sqr_fp(zr, zi) <= 4 * (FP_ONE as int) {
        lemma_escape_steps_le_fuel(
            step_re(zr, zi, cr),
            step_im(zr, zi, ci),
            cr,
            ci,
            (fuel - 1) as nat,
        );
    }
}

/// A component beyond 2.0 in magnitude already puts `|z|^2` above 4.
proof fn lemma_large_component_escapes(zr: int, zi: int)
    requires
        zr > 2 * (FP_ONE as int) || zr < -2 * (FP_ONE as int) || zi > 2 * (FP_ONE as int) || zi
            < -2 * (FP_ONE as int),
    ensures
        norm_sqr_fp(zr, zi) > 4 * (FP_ONE as int),
{
    let f = FP_ONE as int;
    if zr > 2 * f || zr < -2 * f {
        assert(zr * zr >= (4 * f + 4) * f) by (nonlinear_arith)
            requires
                zr > 2 * f || zr < -2 * f,
                f >= 1,
        ;
        lemma_div_is_ordered((4 * f + 4) * f, zr * zr, f);
        lemma_div_multiples_vanish(4 * f + 4, f);
        assert(f * (4 * f + 4) == (4 * f + 4) * f) by (nonlinear_arith);
        assert(zi * zi >= 0) by (nonlinear_arith);
        lemma_div_is_ordered(0, zi * zi, f);
    } else {
        assert(zi * zi >= (4 * f + 4) * f) by (nonlinear_arith)
            requires
                zi > 2 * f || zi < -2 * f,
                f >= 1,
        ;
        lemma_div_is_ordered((4 * f + 4) * f, zi * zi, f);
        lemma_div_multiples_vanish(4 * f + 4, f);
        assert(f * (4 * f + 4) == (4 * f + 4) * f) by (nonlinear_arith);
        assert(zr * zr >= 0) by (nonlinear_arith);
        lemma_div_is_ordered(0, zr * zr, f);
    }
}

/// While `|z|^2` is at most 4, both components stay within 3.0.
proof fn lemma_norm_small_components(zr: int, zi: int)
    requires
        norm_sqr_fp(zr, zi) <= 4 * (FP_ONE as int),
    ensures
        -3 * (FP_ONE as int) <= zr <= 3 * (FP_ONE as int),
        -3 * (FP_ONE as int) <= zi <= 3 * (FP_ONE as int),
{
    let f = FP_ONE as int;
    if zr > 3 * f || zr < -3 * f || zi > 3 * f || zi < -3 * f {
        lemma_large_component_escapes(zr, zi);
    }
}

/// Bounds for one square term `w*w / FP_ONE` when `|w| <= 3.0`.
proof fn lemma_square_term_bound(w: int)
    requires
        -3 * (FP_ONE as int) <= w <= 3 * (FP_ONE as int),
    ensures
        0 <= w * w <= 9 * (FP_ONE as int) * (FP_ONE as int),
        0 <= (w * w) / (FP_ONE as int) <= 9 * (FP_ONE as int),
{
    let f = FP_ONE as int;
    assert(0 <= w * w <= (9 * f) * f) by (nonlinear_arith)
        requires
            -3 * f <= w <= 3 * f,
            f >= 1,
    ;
    assert((9 * f) * f == 9 * f * f) by (nonlinear_arith);
    lemma_div_is_ordered(0, w * w, f);
    lemma_div_is_ordered(w * w, (9 * f) * f, f);
    lemma_div_multiples_vanish(9 * f, f);
    assert(f * (9 * f) == (9 * f) * f) by (nonlinear_arith);
}

/// Computes `|z|^2` in Q32.32 exactly as `norm_sqr_fp` states it.
fn norm_sqr_exec(zr: i64, zi: i64) -> (r: i128)
    requires
        -32 * (FP_ONE as int) <= zr as int <= 32 * (FP_ONE as int),
        -32 * (FP_ONE as int) <= zi as int <= 32 * (FP_ONE as int),
    ensures
        r == norm_sqr_fp(zr as int, zi as int),
{
    proof {
        let f = FP_ONE as int;
        assert(0 <= (zr as int) * (zr as int) <= (1024 * f) * f && 0 <= (zi as int) * (zi as int)
            <= (1024 * f) * f) by (nonlinear_arith)
            requires
                -32 * f <= zr as int <= 32 * f,
                -32 * f <= zi as int <= 32 * f,
                f >= 1,
        ;
        lemma_div_is_ordered((zr as int) * (zr as int), (1024 * f) * f, f);
        lemma_div_is_ordered((zi as int) * (zi as int), (1024 * f) * f, f);
        lemma_div_is_ordered(0, (zr as int) * (zr as int), f);
        lemma_div_is_ordered(0, (zi as int) * (zi as int), f);
        lemma_div_multiples_vanish(1024 * f, f);
        assert(f * (1024 * f) == (1024 * f) * f) by (nonlinear_arith);
    }
    let sr: i128 = (zr as i128) * (zr as i128);
    let si: i128 = (zi as i128) * (zi as i128);
    let qr: u128 = (sr as u128) / (FP_ONE as u128);
    let qi: u128 = (si as u128) / (FP_ONE as u128);
    (qr as i128) + (qi as i128)
}

/// Escape-time evaluation of the plane point `(x, y)` (Q32.32 components)
/// with the given iteration cap.  Returns the exact escape count; the
/// count is always in `[0, max_iterations]`.
pub fn evaluate(x: i64, y: i64, max_iterations: u32) -> (count: u32)
    ensures
        count == escape_count(x as int, y as int, max_iterations as nat),
        count <= max_iterations,
{
    proof {
        lemma_escape_steps_le_fuel(x as int, y as int, x as int, y as int, max_iterations as nat);
    }
    let bound: i64 = 2 * FP_ONE;
    if x > bound || x < -bound || y > bound || y < -bound {
        proof {
            lemma_large_component_escapes(x as int, y as int);
        }
        return 0;
    }
    let mut zr: i64 = x;
    let mut zi: i64 = y;
    let mut i: u32 = 0;
    loop
        invariant
            i <= max_iterations,
            -2 * (FP_ONE as int) <= x <= 2 * (FP_ONE as int),
            -2 * (FP_ONE as int) <= y <= 2 * (FP_ONE as int),
            -20 * (FP_ONE as int) <= zr as int <= 20 * (FP_ONE as int),
            -20 * (FP_ONE as int) <= zi as int <= 20 * (FP_ONE as int),
            escape_count(x as int, y as int, max_iterations as nat) == i + escape_steps(
                zr as int,
                zi as int,
                x as int,
                y as int,
                (max_iterations - i) as nat,
            ),
        ensures
            i <= max_iterations,
            i == escape_count(x as int, y as int, max_iterations as nat),
        decreases max_iterations - i,
    {
        proof {
            lemma_escape_steps_le_fuel(
                zr as int,
                zi as int,
                x as int,
                y as int,
                (max_iterations - i) as nat,
            );
        }
        if i >= max_iterations {
            break ;
        }
        let ns = norm_sqr_exec(zr, zi);
        if ns > 4 * (FP_ONE as i128) {
            break ;
        }
        proof {
            lemma_norm_small_components(zr as int, zi as int);
            lemma_square_term_bound(zr as int);
            lemma_square_term_bound(zi as int);
            let f = FP_ONE as int;
            assert(-((18 * f) * f) <= 2 * (zr as int) * (zi as int) <= (18 * f) * f)
                by (nonlinear_arith)
                requires
                    -3 * f <= zr as int <= 3 * f,
                    -3 * f <= zi as int <= 3 * f,
                    f >= 1,
            ;
        }
        let sr: i128 = (zr as i128) * (zr as i128);
        let si: i128 = (zi as i128) * (zi as i128);
        let qr: i128 = ((sr as u128) / (FP_ONE as u128)) as i128;
        let qi: i128 = ((si as u128) / (FP_ONE as u128)) as i128;
        let cross: i128 = 2 * (zr as i128) * (zi as i128);
        let qc: i128 = crate::fixed::div_fp(cross);
        proof {
            let f = FP_ONE as int;
            assert(-18 * f <= qc <= 18 * f) by {
                if cross >= 0 {
                    lemma_div_is_ordered(cross as int, (18 * f) * f, f);
                    lemma_div_is_ordered(0, cross as int, f);
                } else {
                    lemma_div_is_ordered(-(cross as int), (18 * f) * f, f);
                    lemma_div_is_ordered(0, -(cross as int), f);
                }
                lemma_div_multiples_vanish(18 * f, f);
                assert(f * (18 * f) == (18 * f) * f) by (nonlinear_arith);
            }
        }
        let new_zr: i64 = (qr - qi + (x as i128)) as i64;
        let new_zi: i64 = (qc + (y as i128)) as i64;
        proof {
            assert(new_zr as int == step_re(zr as int, zi as int, x as int));
            assert(new_zi as int == step_im(zr as int, zi as int, y as int));
        }
        zr = new_zr;
        zi = new_zi;
        i = i + 1;
    }
    i
}

/// The plane origin never escapes: seeding with `c = 0` keeps `z = 0`
/// forever, so the count always reaches the cap.
pub proof fn lemma_origin_reaches_cap(max_iterations: nat)
    ensures
        escape_count(0, 0, max_iterations) == max_iterations,
{
    lemma_origin_steps(max_iterations);
}

proof fn lemma_origin_steps(fuel: nat)
    ensures
        escape_steps(0, 0, 0, 0, fuel) == fuel,
    decreases fuel,
{
    if fuel > 0 {
        lemma_origin_steps((fuel - 1) as nat);
    }
}

} // verus!
