//! An agent: position and heading on the torus, a bounded speed, an eye,
//! a brain and a satiation counter that serves as fitness.

use vstd::prelude::*;
use crate::fx::FX_ONE;
use crate::trig::PI_FX;
use crate::geom::{P2, p2_on_torus};
use crate::eye::{Eye, eye_wf};
use crate::network::{Network, net_wf, net_matches};
use crate::config::{Config, config_wf, config_topology, reset_speed};
use crate::rng::{rng_unit, rng_fx_range};

verus! {

/// One agent of the simulation.
#[derive(Clone, Debug)]
pub struct Animal {
    pub position: P2,
    pub rotation: i64,
    pub speed: i64,
    pub eye: Eye,
    pub brain: Network,
    pub satiation: u64,
}

/// Well-formedness of an agent under a configuration: on the torus, a
/// normalized heading, a speed inside the bounds, the configured eye, and
/// a brain of the configured topology.
pub open spec fn animal_wf(a: Animal, c: Config) -> bool {
    &&& p2_on_torus(a.position)
    &&& -PI_FX < a.rotation <= PI_FX
    &&& c.speed_min <= a.speed <= c.speed_max
    &&& a.eye.fov_angle == c.eye_fov_angle
    &&& a.eye.cells == c.eye_cells
    &&& a.eye.range == c.eye_range
    &&& net_wf(a.brain)
    &&& net_matches(a.brain, config_topology(c))
}

impl Animal {
    /// A fresh agent around a given brain: random position, random
    /// heading, the midpoint speed, zero satiation.
    pub fn with_brain(rng: &mut rand_chacha::ChaCha8Rng, c: &Config, brain: Network) -> (r: Animal)
        requires
            config_wf(*c),
            net_wf(brain),
            net_matches(brain, config_topology(*c)),
        ensures
            animal_wf(r, *c),
            r.satiation == 0,
            r.brain == brain,
            r.speed == reset_speed(*c),
    {
        let x = rng_unit(rng);
        let y = rng_unit(rng);
        let rotation = rng_fx_range(rng, -PI_FX + 1, PI_FX);
        let speed = c.speed_min + (((c.speed_max - c.speed_min) as u64) / 2) as i64;
        Animal {
            position: P2 { x, y },
            rotation,
            speed,
            eye: Eye { fov_angle: c.eye_fov_angle, cells: c.eye_cells, range: c.eye_range },
            brain,
            satiation: 0,
        }
    }

    /// A fresh agent with a randomly drawn brain.
    pub fn random(rng: &mut rand_chacha::ChaCha8Rng, c: &Config) -> (r: Animal)
        requires
            config_wf(*c),
        ensures
            animal_wf(r, *c),
            r.satiation == 0,
            r.speed == reset_speed(*c),
    {
        proof {
            crate::config::lemma_config_topology_wf(*c);
        }
        let topo = c.topology();
        let brain = Network::random(rng, &topo);
        Animal::with_brain(rng, c, brain)
    }

    /// The position.
    pub fn position(&self) -> (r: P2)
        ensures
            r == self.position,
    {
        self.position
    }

    /// The heading angle.
    pub fn rotation(&self) -> (r: i64)
        ensures
            r == self.rotation,
    {
        self.rotation
    }

    /// The current speed.
    pub fn speed(&self) -> (r: i64)
        ensures
            r == self.speed,
    {
        self.speed
    }

    /// Food eaten since the last evolution cycle.
    pub fn satiation(&self) -> (r: u64)
        ensures
            r == self.satiation,
    {
        self.satiation
    }
}

} // verus!
