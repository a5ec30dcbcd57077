//! Fixed-point angles and trigonometry.
//!
//! Angles are fixed-point radians.  `wrap_angle` reduces any angle into the
//! half-open interval `(-PI_FX, PI_FX]`.  The sine, cosine and arc-tangent
//! functions are polynomial approximations on the fixed-point grid; their
//! contracts state the computed value exactly, as a spec-level mirror of the
//! same formula.

use vstd::prelude::*;
use crate::fx::{
    FX_ONE, iabs, fx_in_range, fx_clamped, fx_clamp, fx_add, fx_sub, fx_mul_spec, fx_mul,
    fx_div_spec, fx_div, emod,
};

verus! {

/// Fixed-point value of pi.
pub const PI_FX: i64 = 205887;

/// Fixed-point value of 2 * pi.
pub const TAU_FX: i64 = 2 * PI_FX;

/// Fixed-point value of pi / 2.
pub const HALF_PI_FX: i64 = 102944;

/// Fixed-point value of pi / 4.
pub const QUARTER_PI_FX: i64 = 51472;

/// Arc-tangent polynomial coefficients (fixed-point 0.2447 and 0.0663).
pub const ATAN_C1: i64 = 16036;

pub const ATAN_C2: i64 = 4345;

/// Bound on the angles `wrap_angle` accepts (2^62).
pub const ANGLE_IN_LIM: i64 = 0x4000_0000_0000_0000;

/// The unique angle in `(-PI_FX, PI_FX]` congruent to `a` modulo a turn.
pub open spec fn wrap_angle_spec(a: int) -> int {
    (PI_FX as int) - (((PI_FX as int) - a) % (TAU_FX as int))
}

/// Reduce an angle into `(-PI_FX, PI_FX]` by full turns.
pub fn wrap_angle(a: i64) -> (r: i64)
    requires
        -ANGLE_IN_LIM <= a <= ANGLE_IN_LIM,
    ensures
        r == wrap_angle_spec(a as int),
        -PI_FX < r <= PI_FX,
{
    let u = emod(PI_FX - a, TAU_FX);
    PI_FX - u
}

/// Value of the sine approximation on `[0, PI_FX]`.
pub open spec fn sin_half_spec(x: int) -> int {
    let t = fx_mul_spec(x, (PI_FX as int) - x);
    let num = fx_mul_spec(t, 16 * FX_ONE as int);
    let den = fx_clamped(5 * fx_mul_spec(PI_FX as int, PI_FX as int) - fx_mul_spec(
        t,
        4 * FX_ONE as int,
    ));
    if den <= 0 {
        0
    } else {
        fx_div_spec(num, den)
    }
}

/// Sine on `[0, PI_FX]` by the rational approximation
/// `16 x (pi - x) / (5 pi^2 - 4 x (pi - x))`.
fn sin_half(x: i64) -> (r: i64)
    requires
        0 <= x <= PI_FX,
    ensures
        r == sin_half_spec(x as int),
        fx_in_range(r as int),
{
    let t = fx_mul(x, PI_FX - x);
    let num = fx_mul(t, 16 * FX_ONE);
    let pi2 = fx_mul(PI_FX, PI_FX);
    let den = fx_clamp(5 * pi2 - fx_mul(t, 4 * FX_ONE));
    if den <= 0 {
        0
    } else {
        fx_div(num, den)
    }
}

/// Value of the fixed-point sine: odd extension of the half-wave form.
pub open spec fn fx_sin_spec(a: int) -> int {
    let w = wrap_angle_spec(a);
    if w >= 0 {
        sin_half_spec(w)
    } else {
        -sin_half_spec(-w)
    }
}

/// Fixed-point sine of an angle in fixed-point radians.
pub fn fx_sin(a: i64) -> (r: i64)
    requires
        -ANGLE_IN_LIM <= a <= ANGLE_IN_LIM,
    ensures
        r == fx_sin_spec(a as int),
        fx_in_range(r as int),
{
    let w = wrap_angle(a);
    if w >= 0 {
        sin_half(w)
    } else {
        -sin_half(-w)
    }
}

/// Value of the fixed-point cosine: the sine a quarter turn ahead.
pub open spec fn fx_cos_spec(a: int) -> int {
    fx_sin_spec(fx_clamped(a + HALF_PI_FX as int))
}

/// Fixed-point cosine of an angle in fixed-point radians.
pub fn fx_cos(a: i64) -> (r: i64)
    requires
        fx_in_range(a as int),
    ensures
        r == fx_cos_spec(a as int),
        fx_in_range(r as int),
{
    fx_sin(fx_add(a, HALF_PI_FX))
}

/// A quotient of a smaller magnitude by a larger positive one stays at or
/// below one on the fixed-point grid.
proof fn lemma_ratio_at_most_one(num: int, den: int)
    requires
        0 <= num <= den,
        0 < den,
    ensures
        0 <= fx_div_spec(num, den) <= FX_ONE as int,
{
    vstd::arithmetic::mul::lemma_mul_inequality(num, den, FX_ONE as int);
    vstd::arithmetic::div_mod::lemma_div_is_ordered(
        num * (FX_ONE as int),
        den * (FX_ONE as int),
        den,
    );
    vstd::arithmetic::div_mod::lemma_div_multiples_vanish(FX_ONE as int, den);
    vstd::arithmetic::mul::lemma_mul_nonnegative(num, FX_ONE as int);
    vstd::arithmetic::div_mod::lemma_div_pos_is_pos(num * (FX_ONE as int), den);
}

/// Value of the arc-tangent polynomial on `[0, FX_ONE]`.
pub open spec fn atan01_spec(z: int) -> int {
    let linear = fx_mul_spec(z, QUARTER_PI_FX as int);
    let zz = fx_mul_spec(z, fx_clamped((FX_ONE as int) - z));
    let poly = fx_clamped((ATAN_C1 as int) + fx_mul_spec(ATAN_C2 as int, z));
    fx_clamped(linear + fx_mul_spec(zz, poly))
}

/// Arc-tangent approximation for arguments in `[0, FX_ONE]`:
/// `z * pi/4 + z * (1 - z) * (0.2447 + 0.0663 z)`.
fn atan01(z: i64) -> (r: i64)
    requires
        0 <= z <= FX_ONE,
    ensures
        r == atan01_spec(z as int),
        fx_in_range(r as int),
{
    let linear = fx_mul(z, QUARTER_PI_FX);
    let zz = fx_mul(z, fx_sub(FX_ONE, z));
    let poly = fx_add(ATAN_C1, fx_mul(ATAN_C2, z));
    fx_add(linear, fx_mul(zz, poly))
}

/// Value of the fixed-point two-argument arc-tangent.
pub open spec fn fx_atan2_spec(y: int, x: int) -> int {
    if x == 0 && y == 0 {
        0
    } else {
        let ax = iabs(x);
        let ay = iabs(y);
        let base = if ax >= ay {
            atan01_spec(fx_div_spec(ay, ax))
        } else {
            fx_clamped((HALF_PI_FX as int) - atan01_spec(fx_div_spec(ax, ay)))
        };
        let raw = if x >= 0 {
            base
        } else {
            fx_clamped((PI_FX as int) - base)
        };
        let signed_raw = if y >= 0 {
            raw
        } else {
            -raw
        };
        wrap_angle_spec(signed_raw)
    }
}

/// Fixed-point angle of the vector `(x, y)` from the positive x axis,
/// in `(-PI_FX, PI_FX]`; zero when both components are zero.
pub fn fx_atan2(y: i64, x: i64) -> (r: i64)
    requires
        fx_in_range(y as int),
        fx_in_range(x as int),
    ensures
        r == fx_atan2_spec(y as int, x as int),
        -PI_FX < r <= PI_FX,
{
    if x == 0 && y == 0 {
        0
    } else {
        let ax = if x < 0 {
            -x
        } else {
            x
        };
        let ay = if y < 0 {
            -y
        } else {
            y
        };
        let base = if ax >= ay {
            proof {
                lemma_ratio_at_most_one(ay as int, ax as int);
            }
            atan01(fx_div(ay, ax))
        } else {
            proof {
                lemma_ratio_at_most_one(ax as int, ay as int);
            }
            fx_sub(HALF_PI_FX, atan01(fx_div(ax, ay)))
        };
        let raw = if x >= 0 {
            base
        } else {
            fx_sub(PI_FX, base)
        };
        let signed_raw = if y >= 0 {
            raw
        } else {
            -raw
        };
        wrap_angle(signed_raw)
    }
}

} // verus!
