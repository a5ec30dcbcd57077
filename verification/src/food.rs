//! A food item: a position on the torus, recycled rather than consumed.

use vstd::prelude::*;
use crate::geom::{P2, p2_on_torus};
use crate::rng::rng_unit;

verus! {

/// A food item.
#[derive(Clone, Copy, Debug, PartialEq, Eq, Structural)]
pub struct Food {
    pub position: P2,
}

pub open spec fn food_wf(f: Food) -> bool {
    p2_on_torus(f.position)
}

impl Food {
    /// A food at a fresh uniform position on the unit square.
    pub fn random(rng: &mut rand_chacha::ChaCha8Rng) -> (r: Food)
        ensures
            food_wf(r),
    {
        let x = rng_unit(rng);
        let y = rng_unit(rng);
        Food { position: P2 { x, y } }
    }

    /// The position.
    pub fn position(&self) -> (r: P2)
        ensures
            r == self.position,
    {
        self.position
    }
}

} // verus!
