//! The immutable configuration of a simulation: speed and turn bounds,
//! generation length, eye shape, brain shape and mutation parameters.
//! Passing it explicitly lets several differently-tuned simulations
//! coexist.

use vstd::prelude::*;
use crate::fx::{FX_ONE, FX_LIM, fx_in_range};
use crate::trig::{PI_FX, TAU_FX, HALF_PI_FX, QUARTER_PI_FX};
use crate::network::{LayerTopology, topology_wf};

verus! {

/// All tunables of one simulation, fixed at construction.
#[derive(Clone, Copy, Debug, PartialEq, Eq, Structural)]
pub struct Config {
    /// Lowest speed an agent can move at.
    pub speed_min: i64,
    /// Highest speed an agent can move at.
    pub speed_max: i64,
    /// Largest speed change one tick may apply.
    pub speed_accel: i64,
    /// Largest heading change one tick may apply.
    pub rotation_accel: i64,
    /// Ticks between two evolution cycles.
    pub generation_length: u64,
    /// Field-of-view angle of the eye.
    pub eye_fov_angle: i64,
    /// Number of angular sectors of the eye.
    pub eye_cells: usize,
    /// Maximum perceptible range of the eye.
    pub eye_range: i64,
    /// Neuron count of the hidden brain layer.
    pub brain_hidden: usize,
    /// Probability that mutation touches a gene.
    pub mutation_chance: i64,
    /// Largest magnitude of a gene perturbation.
    pub mutation_coefficient: i64,
    /// Number of agents in the world.
    pub n_animals: usize,
    /// Number of food items in the world.
    pub n_foods: usize,
    /// Distance at which an agent eats a food.
    pub eating_radius: i64,
}

pub open spec fn config_wf(c: Config) -> bool {
    &&& 0 < c.speed_min <= c.speed_max <= FX_ONE
    &&& 0 <= c.speed_accel <= FX_LIM
    &&& 0 <= c.rotation_accel <= PI_FX
    &&& 1 <= c.generation_length < u64::MAX
    &&& 0 < c.eye_fov_angle <= TAU_FX
    &&& 1 <= c.eye_cells <= 65536
    &&& 0 < c.eye_range <= FX_LIM
    &&& 1 <= c.brain_hidden <= 65536
    &&& 0 <= c.mutation_chance <= FX_ONE
    &&& 0 <= c.mutation_coefficient <= 3 * FX_ONE
    &&& 1 <= c.n_animals <= 65536
    &&& 0 <= c.n_foods <= 65536
    &&& 0 <= c.eating_radius <= FX_LIM
}

/// The brain topology a configuration prescribes: eye cells in, a hidden
/// layer, two motor outputs.
pub open spec fn config_topology(c: Config) -> Seq<LayerTopology> {
    seq![
        LayerTopology { neurons: c.eye_cells },
        LayerTopology { neurons: c.brain_hidden },
        LayerTopology { neurons: 2 },
    ]
}

/// The speed every freshly materialized agent starts with: the midpoint
/// of the configured speed range.
pub open spec fn reset_speed(c: Config) -> int {
    c.speed_min + (c.speed_max - c.speed_min) / 2
}

/// The standard tuning, as a spec value.
pub open spec fn standard_config() -> Config {
    Config {
        speed_min: 7,
        speed_max: 33,
        speed_accel: 13107,
        rotation_accel: HALF_PI_FX,
        generation_length: 2500,
        eye_fov_angle: (PI_FX + QUARTER_PI_FX) as i64,
        eye_cells: 9,
        eye_range: 16384,
        brain_hidden: 18,
        mutation_chance: 655,
        mutation_coefficient: 19661,
        n_animals: 40,
        n_foods: 60,
        eating_radius: 655,
    }
}

impl Config {
    /// The topology as a vector, for network construction.
    pub fn topology(&self) -> (r: Vec<LayerTopology>)
        ensures
            r@ == config_topology(*self),
    {
        let v = vec![
            LayerTopology { neurons: self.eye_cells },
            LayerTopology { neurons: self.brain_hidden },
            LayerTopology { neurons: 2 },
        ];
        proof {
            assert(v@ =~= config_topology(*self));
        }
        v
    }

    /// The standard tuning: slow speeds on the unit torus, a 2500-tick
    /// generation, a nine-sector eye and a light mutation rate.
    pub fn standard() -> (r: Config)
        ensures
            r == standard_config(),
            config_wf(r),
    {
        Config {
            speed_min: 7,  // 0.0001
            speed_max: 33,  // 0.0005
            speed_accel: 13107,  // 0.2
            rotation_accel: HALF_PI_FX,
            generation_length: 2500,
            eye_fov_angle: PI_FX + QUARTER_PI_FX,
            eye_cells: 9,
            eye_range: 16384,  // 0.25
            brain_hidden: 18,
            mutation_chance: 655,  // 0.01
            mutation_coefficient: 19661,  // 0.3
            n_animals: 40,
            n_foods: 60,
            eating_radius: 655,  // 0.01
        }
    }
}

/// A well-formed configuration prescribes a well-formed topology.
pub proof fn lemma_config_topology_wf(c: Config)
    requires
        config_wf(c),
    ensures
        topology_wf(config_topology(c)),
{
}

} // verus!
