//! Q20 fixed-point format and the arithmetic helpers the oscillators use.
//!
//! A value `v` in this format stands for the real number `v / FP_ONE`.
//! Division in the synthesis formulas always truncates toward zero, which
//! `tz_div` states exactly; the executable helpers are proved equal to it.

use vstd::prelude::*;

verus! {

/// One (1.0) in the Q20 fixed-point format.
pub const FP_ONE: i64 = 1048576;

/// Pi in the Q20 fixed-point format, rounded to the nearest integer.
pub const PI_FP: i64 = 3294199;

/// Hard bound on the magnitude of every sample and filter state:
/// sixteen times full scale. Ordinary signals stay far below it; the
/// bound only guarantees that a degenerate voice stays finite.
pub const FP_CLAMP: i64 = 16 * FP_ONE;

/// Division truncating toward zero (Rust's `/` on machine integers),
/// for a positive divisor.
pub open spec fn tz_div(a: int, d: int) -> int {
    if a >= 0 {
        a / d
    } else {
        -((-a) / d)
    }
}

/// `a * b / d` on nonnegative operands, computed without overflow.
pub(crate) fn mul_div_u(a: i64, b: i64, d: i64) -> (r: i64)
    requires
        0 <= a,
        0 <= b,
        1 <= d,
        a * b / (d as int) <= 0x7fff_ffff_ffff_ffff,
    ensures
        r == a * b / (d as int),
{
    proof {
        assert((a as int) * (b as int) <= 0x7fff_ffff_ffff_ffff * 0x7fff_ffff_ffff_ffff)
            by (nonlinear_arith)
            requires
                0 <= a <= 0x7fff_ffff_ffff_ffff,
                0 <= b <= 0x7fff_ffff_ffff_ffff,
        ;
    }
    let p: u128 = (a as u128) * (b as u128);
    let q: u128 = p / (d as u128);
    q as i64
}

/// `tz_div(a * b, d)` for a signed `a`, nonnegative `b`, positive `d`.
pub(crate) fn mul_div_tz(a: i64, b: i64, d: i64) -> (r: i64)
    requires
        -0x7fff_ffff_ffff_ffff <= a,
        0 <= b,
        1 <= d,
        (if a >= 0 { a as int } else { -(a as int) }) * (b as int) / (d as int)
            <= 0x7fff_ffff_ffff_ffff,
    ensures
        r == tz_div(a as int * b as int, d as int),
{
    if a >= 0 {
        mul_div_u(a, b, d)
    } else {
        let m = mul_div_u(-a, b, d);
        proof {
            assert(-(a as int) * b == -(a as int * b)) by (nonlinear_arith);
        }
        -m
    }
}

} // verus!
