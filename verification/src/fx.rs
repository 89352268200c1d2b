//! Fixed-point scalars.
//!
//! Every coordinate, length and opacity in this library is an `i64` holding
//! thousandths of a unit, so `FX_ONE` stands for the value one.  All
//! operations clamp their result into `[-FX_MAX, FX_MAX]`, which keeps the
//! arithmetic total: no input can overflow, and no well-formedness condition
//! on magnitudes has to be threaded through the converter.  Products and
//! quotients truncate toward zero, as machine division does.

use vstd::prelude::*;

verus! {

/// One unit in fixed-point representation (thousandths).
pub const FX_ONE: i64 = 1000;

/// Magnitude bound kept by every fixed-point operation.
pub const FX_MAX: i64 = 1_000_000_000_000;

/// Magnitude of an integer.
pub open spec fn mag(v: int) -> int {
    if v >= 0 {
        v
    } else {
        -v
    }
}

/// Clamp a mathematical integer into the representable fixed-point range.
pub open spec fn clamp_fx(v: int) -> int {
    if v > FX_MAX {
        FX_MAX as int
    } else if v < -(FX_MAX as int) {
        -(FX_MAX as int)
    } else {
        v
    }
}

/// Saturating fixed-point addition.
pub open spec fn spec_fx_add(a: i64, b: i64) -> i64 {
    clamp_fx(a + b) as i64
}

/// Saturating fixed-point multiplication: `(a * b) / FX_ONE`, truncated
/// toward zero.
pub open spec fn spec_fx_mul(a: i64, b: i64) -> i64 {
    let q = (mag(a as int) * mag(b as int)) / (FX_ONE as int);
    if (a < 0) != (b < 0) {
        clamp_fx(-q) as i64
    } else {
        clamp_fx(q) as i64
    }
}

/// Saturating fixed-point division: `(a * FX_ONE) / b`, truncated toward
/// zero; zero when the divisor is zero.
pub open spec fn spec_fx_div(a: i64, b: i64) -> i64 {
    if b == 0 {
        0
    } else {
        let q = (mag(a as int) * (FX_ONE as int)) / mag(b as int);
        if (a < 0) != (b < 0) {
            clamp_fx(-q) as i64
        } else {
            clamp_fx(q) as i64
        }
    }
}

/// Whole units covering a non-negative fixed-point length: the ceiling of
/// `v / FX_ONE`, and zero for non-positive input.
pub open spec fn spec_fx_ceil_units(v: i64) -> u64 {
    if v <= 0 {
        0
    } else {
        ((v + FX_ONE - 1) / (FX_ONE as int)) as u64
    }
}

/// Saturating fixed-point subtraction.
pub open spec fn spec_fx_sub(a: i64, b: i64) -> i64 {
    clamp_fx(a - b) as i64
}

pub fn fx_sub(a: i64, b: i64) -> (r: i64)
    ensures
        r == spec_fx_sub(a, b),
{
    let s: i128 = a as i128 - b as i128;
    if s > FX_MAX as i128 {
        FX_MAX
    } else if s < -(FX_MAX as i128) {
        -FX_MAX
    } else {
        s as i64
    }
}

pub fn fx_add(a: i64, b: i64) -> (r: i64)
    ensures
        r == spec_fx_add(a, b),
{
    let s: i128 = a as i128 + b as i128;
    if s > FX_MAX as i128 {
        FX_MAX
    } else if s < -(FX_MAX as i128) {
        -FX_MAX
    } else {
        s as i64
    }
}

/// Magnitude of an `i64` as a `u128` (total, also for the minimum value).
fn abs_u128(a: i64) -> (r: u128)
    ensures
        r == mag(a as int),
{
    if a >= 0 {
        a as u128
    } else {
        (-(a as i128)) as u128
    }
}

/// Clamp a non-negative magnitude and give it back the requested sign.
fn signed_clamp(mag_in: u128, neg: bool) -> (r: i64)
    ensures
        r == if neg { clamp_fx(-(mag_in as int)) } else { clamp_fx(mag_in as int) },
{
    let m: u128 = if mag_in > FX_MAX as u128 {
        FX_MAX as u128
    } else {
        mag_in
    };
    if neg {
        -(m as i64)
    } else {
        m as i64
    }
}

pub fn fx_mul(a: i64, b: i64) -> (r: i64)
    ensures
        r == spec_fx_mul(a, b),
{
    let neg = (a < 0) != (b < 0);
    let aa = abs_u128(a);
    let bb = abs_u128(b);
    proof {
        assert(aa * bb <= 0x8000000000000000u128 * 0x8000000000000000u128) by (nonlinear_arith)
            requires
                aa <= 0x8000000000000000u128,
                bb <= 0x8000000000000000u128,
        ;
    }
    let q: u128 = (aa * bb) / (FX_ONE as u128);
    signed_clamp(q, neg)
}

pub fn fx_div(a: i64, b: i64) -> (r: i64)
    ensures
        r == spec_fx_div(a, b),
{
    if b == 0 {
        return 0;
    }
    let neg = (a < 0) != (b < 0);
    let aa = abs_u128(a);
    let bb = abs_u128(b);
    proof {
        assert(aa * 1000 <= 0x8000000000000000u128 * 1000) by (nonlinear_arith)
            requires
                aa <= 0x8000000000000000u128,
        ;
    }
    let q: u128 = (aa * (FX_ONE as u128)) / bb;
    signed_clamp(q, neg)
}

pub fn fx_ceil_units(v: i64) -> (r: u64)
    ensures
        r == spec_fx_ceil_units(v),
{
    if v <= 0 {
        0
    } else {
        ((v as u64) + (FX_ONE as u64) - 1) / (FX_ONE as u64)
    }
}

} // verus!
