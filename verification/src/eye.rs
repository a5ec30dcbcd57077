//! The sector-based eye.
//!
//! The eye converts the agent's position and heading plus the food
//! positions into a fixed-size perception vector: one cell per angular
//! sector of the field of view, each accumulating `(range - dist) / range`
//! for every food it sees.  The heading convention matches the motion
//! model: a heading of zero looks along the positive y axis, and the
//! bearing of a food is `atan2(-dx, dy)` of the torus-shortest offset.

use vstd::prelude::*;
use vstd::arithmetic::mul::lemma_mul_upper_bound;
use vstd::arithmetic::div_mod::lemma_div_pos_is_pos;
use crate::fx::{FX_ONE, FX_LIM, fx_in_range, fx_clamped, fx_mul_spec, fx_div_spec, fx_add, fx_sub,
    fx_mul, fx_div, fx_sqrt, isqrt_spec};
use crate::trig::{TAU_FX, wrap_angle_spec, wrap_angle, fx_atan2_spec, fx_atan2};
use crate::geom::{P2, p2_on_torus, torus_delta_spec, torus_delta};
use crate::food::{Food, food_wf};

verus! {

/// The sensor configuration: full field-of-view angle centered on the
/// heading, number of angular sectors, and maximum perceptible range.
#[derive(Clone, Copy, Debug, PartialEq, Eq, Structural)]
pub struct Eye {
    pub fov_angle: i64,
    pub cells: usize,
    pub range: i64,
}

pub open spec fn eye_wf(e: Eye) -> bool {
    &&& 0 < e.fov_angle <= TAU_FX
    &&& 1 <= e.cells <= 65536
    &&& 0 < e.range <= FX_LIM
}

/// Squared torus distance between two points, on the fixed-point grid.
pub open spec fn dist2_spec(a: P2, b: P2) -> int {
    let dx = torus_delta_spec(a.x as int, b.x as int);
    let dy = torus_delta_spec(a.y as int, b.y as int);
    fx_clamped(fx_mul_spec(dx, dx) + fx_mul_spec(dy, dy))
}

/// Torus distance between two points, on the fixed-point grid.
pub open spec fn dist_spec(a: P2, b: P2) -> int {
    isqrt_spec((dist2_spec(a, b) * (FX_ONE as int)) as nat) as int
}

/// Bearing of the food relative to the agent's heading, in
/// `(-PI_FX, PI_FX]`.
pub open spec fn rel_angle_spec(pos: P2, rot: int, fpos: P2) -> int {
    let dx = torus_delta_spec(pos.x as int, fpos.x as int);
    let dy = torus_delta_spec(pos.y as int, fpos.y as int);
    wrap_angle_spec(fx_atan2_spec(-dx, dy) - rot)
}

/// Sector index that a food falls in, or -1 when it is out of range or
/// outside the field of view.
pub open spec fn food_cell(e: Eye, pos: P2, rot: int, f: Food) -> int {
    if dist_spec(pos, f.position) > e.range {
        -1
    } else {
        let rel = rel_angle_spec(pos, rot, f.position);
        let half = e.fov_angle as int / 2;
        if rel < -half || rel > half {
            -1
        } else {
            let idx = (rel + half) * (e.cells as int) / (e.fov_angle as int);
            if idx >= e.cells {
                e.cells - 1
            } else {
                idx
            }
        }
    }
}

/// Contribution of one visible food: `(range - dist) / range`.
pub open spec fn food_value(e: Eye, pos: P2, f: Food) -> int {
    fx_div_spec(fx_clamped((e.range as int) - dist_spec(pos, f.position)), e.range as int)
}

/// The perception vector after the first `foods.len()` foods, processed in
/// order, each adding its contribution to its sector.
pub open spec fn vision_acc(e: Eye, pos: P2, rot: int, foods: Seq<Food>) -> Seq<i64>
    decreases foods.len(),
{
    if foods.len() == 0 {
        Seq::new(e.cells as nat, |i: int| 0i64)
    } else {
        let prev = vision_acc(e, pos, rot, foods.drop_last());
        let f = foods.last();
        let c = food_cell(e, pos, rot, f);
        if c < 0 {
            prev
        } else {
            prev.update(c, fx_clamped(prev[c] + food_value(e, pos, f)) as i64)
        }
    }
}

impl Eye {
    /// Sector and contribution of one food, if the eye sees it.
    fn food_contribution(&self, position: P2, rotation: i64, f: &Food) -> (r: Option<
        (usize, i64),
    >)
        requires
            eye_wf(*self),
            p2_on_torus(position),
            fx_in_range(rotation as int),
            food_wf(*f),
        ensures
            r.is_none() <==> food_cell(*self, position, rotation as int, *f) < 0,
            r.is_some() ==> {
                &&& r.unwrap().0 == food_cell(*self, position, rotation as int, *f)
                &&& r.unwrap().0 < self.cells
                &&& r.unwrap().1 == food_value(*self, position, *f)
                &&& 0 <= r.unwrap().1 <= FX_LIM
            },
    {
        let dx = torus_delta(position.x, f.position.x);
        let dy = torus_delta(position.y, f.position.y);
        let d2 = fx_add(fx_mul(dx, dx), fx_mul(dy, dy));
        proof {
            assert(fx_mul_spec(dx as int, dx as int) >= 0);
            assert(fx_mul_spec(dy as int, dy as int) >= 0);
        }
        let dist = fx_sqrt(d2);
        if dist > self.range {
            return None;
        }
        let ang = fx_atan2(-dx, dy);
        let rel = wrap_angle(ang - rotation);
        let half = ((self.fov_angle as u64) / 2) as i64;
        if rel < -half || rel > half {
            return None;
        }
        proof {
            assert(0 <= rel + half <= 2 * ((self.fov_angle as int) / 2));
            lemma_mul_upper_bound(rel + half, TAU_FX as int, self.cells as int, 65536);
        }
        let offu: u64 = (rel + half) as u64;
        let produ: u64 = offu * (self.cells as u64);
        let idxu: u64 = produ / (self.fov_angle as u64);
        let idx: usize = if idxu >= self.cells as u64 {
            self.cells - 1
        } else {
            idxu as usize
        };
        let diff = fx_sub(self.range, dist);
        proof {
            lemma_div_pos_is_pos(diff * (FX_ONE as int), self.range as int);
            vstd::arithmetic::mul::lemma_mul_nonnegative(diff as int, FX_ONE as int);
        }
        let value = fx_div(diff, self.range);
        Some((idx, value))
    }

    /// Build the perception vector for the agent at `position` with heading
    /// `rotation`, looking at `foods`.
    pub fn process_vision(&self, position: P2, rotation: i64, foods: &Vec<Food>) -> (r: Vec<i64>)
        requires
            eye_wf(*self),
            p2_on_torus(position),
            fx_in_range(rotation as int),
            forall|i: int| 0 <= i < foods@.len() ==> food_wf(#[trigger] foods@[i]),
        ensures
            r@ == vision_acc(*self, position, rotation as int, foods@),
            r@.len() == self.cells,
            forall|i: int| 0 <= i < r@.len() ==> 0 <= #[trigger] r@[i] <= FX_LIM,
    {
        let mut out: Vec<i64> = Vec::new();
        let mut k: usize = 0;
        while k < self.cells
            invariant
                k <= self.cells,
                out@.len() == k,
                forall|i: int| 0 <= i < k ==> out@[i] == 0i64,
            decreases self.cells - k,
        {
            out.push(0);
            k = k + 1;
        }
        proof {
            assert(out@ =~= vision_acc(*self, position, rotation as int, foods@.take(0)));
        }
        let mut fi: usize = 0;
        while fi < foods.len()
            invariant
                fi <= foods@.len(),
                eye_wf(*self),
                p2_on_torus(position),
                fx_in_range(rotation as int),
                forall|i: int| 0 <= i < foods@.len() ==> food_wf(#[trigger] foods@[i]),
                out@.len() == self.cells,
                out@ == vision_acc(*self, position, rotation as int, foods@.take(fi as int)),
                forall|i: int| 0 <= i < out@.len() ==> 0 <= #[trigger] out@[i] <= FX_LIM,
            decreases foods@.len() - fi,
        {
            proof {
                assert(foods@.take(fi + 1).drop_last() =~= foods@.take(fi as int));
                assert(foods@.take(fi + 1).last() == foods@[fi as int]);
            }
            let c = self.food_contribution(position, rotation, &foods[fi]);
            match c {
                Some(pair) => {
                    let idx = pair.0;
                    let value = pair.1;
                    let cur = out[idx];
                    let updated = fx_add(cur, value);
                    out.set(idx, updated);
                },
                None => {},
            }
            fi = fi + 1;
        }
        proof {
            assert(foods@.take(foods@.len() as int) =~= foods@);
        }
        out
    }
}

} // verus!
