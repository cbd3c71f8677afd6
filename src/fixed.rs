//! Fixed-point arithmetic shared by the simulation: `SCALE` units are one
//! whole unit of a metric.

use vstd::prelude::*;

verus! {

/// Units per whole unit of any metric (millisecond, Kbps, loss fraction, percent).
pub const SCALE: u64 = 1_000_000;

/// Highest value a live metric may take; results above it saturate here.
pub const METRIC_CEILING: u64 = 1_000_000_000_000_000_000;

pub open spec fn clamp(x: int, lo: int, hi: int) -> int {
    if x < lo {
        lo
    } else if x > hi {
        hi
    } else {
        x
    }
}

/// Division that truncates toward zero, as Rust's `/` does on signed integers.
pub open spec fn trunc_div(a: int, d: int) -> int {
    if a >= 0 {
        a / d
    } else {
        -((-a) / d)
    }
}

/// `x * f / SCALE`: the fixed-point product of `x` and the factor `f`.
pub open spec fn scale_by(x: int, f: int) -> int {
    x * f / (SCALE as int)
}

/// Smallest of `x` and the metric ceiling.
pub open spec fn saturate(x: int) -> int {
    if x > METRIC_CEILING as int {
        METRIC_CEILING as int
    } else {
        x
    }
}

/// `x * f / SCALE`, saturating at the metric ceiling.
pub fn mul_factor(x: u64, f: u64) -> (r: u64)
    ensures
        r == saturate(scale_by(x as int, f as int)),
{
    assert(x as int * f as int <= u64::MAX as int * u64::MAX as int) by (nonlinear_arith)
        requires
            x as int <= u64::MAX as int,
            f as int <= u64::MAX as int,
            0 <= x,
            0 <= f,
    ;
    let wide: u128 = (x as u128) * (f as u128);
    let p: u128 = wide / (SCALE as u128);
    if p > METRIC_CEILING as u128 {
        METRIC_CEILING
    } else {
        p as u64
    }
}

/// Signed division truncating toward zero.
pub fn div_trunc(a: i128, d: i128) -> (r: i128)
    requires
        d > 0,
        a > i128::MIN,
    ensures
        r == trunc_div(a as int, d as int),
{
    if a >= 0 {
        ((a as u128) / (d as u128)) as i128
    } else {
        let m: u128 = ((-a) as u128) / (d as u128);
        -(m as i128)
    }
}

pub fn clamp_u64(x: u64, lo: u64, hi: u64) -> (r: u64)
    requires
        lo <= hi,
    ensures
        r == clamp(x as int, lo as int, hi as int),
{
    if x < lo {
        lo
    } else if x > hi {
        hi
    } else {
        x
    }
}

} // verus!
