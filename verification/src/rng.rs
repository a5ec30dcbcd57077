//! The random source.
//!
//! The whole library threads one `rand_chacha::ChaCha8Rng` stream through
//! every operation that consumes randomness; a fixed seed therefore
//! reproduces a fixed trajectory.  The only trusted call is `rng_below`;
//! every other draw is built on it in verified code, each helper consuming
//! exactly one draw so that the consumption order is part of the code.

use vstd::prelude::*;
use crate::fx::{FX_ONE, fx_in_range};

verus! {

/// Declares rand_chacha's ChaCha8 generator, so that the one random
/// stream can be threaded through every signature that consumes it.
#[verifier::external_type_specification]
#[verifier::external_body]
pub struct ExChaCha8Rng(rand_chacha::ChaCha8Rng);

/// Relies on rand's `Rng::gen_range` over the integer range `0..n`: it
/// returns a value below `n` (and panics only on an empty range, which the
/// precondition rules out).  Nothing more is assumed of the outcome.
#[verifier::external_body]
pub(crate) fn rng_below(rng: &mut rand_chacha::ChaCha8Rng, n: u128) -> (r: u128)
    requires
        n > 0,
    ensures
        r < n,
{
    rand::Rng::gen_range(rng, 0..n)
}

/// One draw of a uniform value in `[0, n)`.
pub fn rng_u64_below(rng: &mut rand_chacha::ChaCha8Rng, n: u64) -> (r: u64)
    requires
        n > 0,
    ensures
        r < n,
{
    let w = rng_below(rng, n as u128);
    w as u64
}

/// One draw of a biased coin: true with probability `chance` (a fixed-point
/// fraction of one).  A zero chance never fires; a full chance always does.
pub fn rng_coin(rng: &mut rand_chacha::ChaCha8Rng, chance: i64) -> (r: bool)
    requires
        0 <= chance <= FX_ONE,
    ensures
        chance == 0 ==> !r,
        chance == FX_ONE ==> r,
{
    let u = rng_u64_below(rng, FX_ONE as u64);
    u < chance as u64
}

/// One draw of a uniform fixed-point value in the inclusive range
/// `[lo, hi]`.
pub fn rng_fx_range(rng: &mut rand_chacha::ChaCha8Rng, lo: i64, hi: i64) -> (r: i64)
    requires
        lo <= hi,
        fx_in_range(lo as int),
        fx_in_range(hi as int),
    ensures
        lo <= r <= hi,
        fx_in_range(r as int),
{
    let span: u64 = (hi - lo) as u64 + 1;
    let u = rng_u64_below(rng, span);
    lo + (u as i64)
}

/// One draw of a uniform coordinate on the unit interval `[0, 1)`.
pub fn rng_unit(rng: &mut rand_chacha::ChaCha8Rng) -> (r: i64)
    ensures
        0 <= r < FX_ONE,
{
    rng_fx_range(rng, 0, FX_ONE - 1)
}

} // verus!
