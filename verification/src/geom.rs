//! Points on the unit torus.
//!
//! A coordinate is a fixed-point value in `[0, FX_ONE)`; both axes wrap.

use vstd::prelude::*;
use crate::fx::{FX_ONE, FX_LIM, fx_in_range, emod};

verus! {

/// A 2D point, fixed-point coordinates.
#[derive(Clone, Copy, Debug, PartialEq, Eq, Structural)]
pub struct P2 {
    pub x: i64,
    pub y: i64,
}

/// Both coordinates lie on the unit torus.
pub open spec fn p2_on_torus(p: P2) -> bool {
    &&& 0 <= p.x < FX_ONE
    &&& 0 <= p.y < FX_ONE
}

/// Wrap a coordinate into `[0, 1)` on the torus: the Euclidean remainder
/// modulo one.  A coordinate of exactly one wraps to zero; a slightly
/// negative one wraps just below one.
pub fn torus_wrap(p: i64) -> (r: i64)
    requires
        i64::MIN < p,
    ensures
        0 <= r < FX_ONE,
        r == (p as int) % (FX_ONE as int),
{
    emod(p, FX_ONE)
}

/// Shortest signed difference from `a` to `b` on the torus, in
/// `[-FX_ONE/2, FX_ONE/2]`.
pub open spec fn torus_delta_spec(a: int, b: int) -> int {
    let raw = b - a;
    if raw > FX_ONE as int / 2 {
        raw - FX_ONE as int
    } else if raw < -(FX_ONE as int) / 2 {
        raw + FX_ONE as int
    } else {
        raw
    }
}

/// Shortest signed difference from `a` to `b` on the torus.
pub fn torus_delta(a: i64, b: i64) -> (r: i64)
    requires
        0 <= a < FX_ONE,
        0 <= b < FX_ONE,
    ensures
        r == torus_delta_spec(a as int, b as int),
        -(FX_ONE / 2) <= r <= FX_ONE / 2,
{
    let raw = b - a;
    if raw > FX_ONE / 2 {
        raw - FX_ONE
    } else if raw < -(FX_ONE / 2) {
        raw + FX_ONE
    } else {
        raw
    }
}

} // verus!
