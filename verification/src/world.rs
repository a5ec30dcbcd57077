//! The world: the ordered agents and the ordered foods, the sole mutable
//! aggregate the simulation operates on.

use vstd::prelude::*;
use crate::animal::{Animal, animal_wf};
use crate::food::{Food, food_wf};
use crate::config::{Config, config_wf};

verus! {

/// The world state.
#[derive(Clone, Debug)]
pub struct World {
    pub animals: Vec<Animal>,
    pub foods: Vec<Food>,
}

pub open spec fn world_wf(w: World, c: Config) -> bool {
    &&& w.animals@.len() == c.n_animals
    &&& w.foods@.len() == c.n_foods
    &&& forall|i: int| 0 <= i < w.animals@.len() ==> animal_wf(#[trigger] w.animals@[i], c)
    &&& forall|i: int| 0 <= i < w.foods@.len() ==> food_wf(#[trigger] w.foods@[i])
}

impl World {
    /// A fresh world: the configured number of random agents and foods.
    pub fn random(rng: &mut rand_chacha::ChaCha8Rng, c: &Config) -> (r: World)
        requires
            config_wf(*c),
        ensures
            world_wf(r, *c),
            forall|i: int| 0 <= i < r.animals@.len() ==> (#[trigger] r.animals@[i]).satiation == 0,
    {
        let mut animals: Vec<Animal> = Vec::new();
        let mut i: usize = 0;
        while i < c.n_animals
            invariant
                i <= c.n_animals,
                config_wf(*c),
                animals@.len() == i,
                forall|j: int| 0 <= j < i ==> animal_wf(#[trigger] animals@[j], *c),
                forall|j: int| 0 <= j < i ==> (#[trigger] animals@[j]).satiation == 0,
            decreases c.n_animals - i,
        {
            let a = Animal::random(rng, c);
            animals.push(a);
            i = i + 1;
        }
        let mut foods: Vec<Food> = Vec::new();
        let mut j: usize = 0;
        while j < c.n_foods
            invariant
                j <= c.n_foods,
                foods@.len() == j,
                forall|k: int| 0 <= k < j ==> food_wf(#[trigger] foods@[k]),
            decreases c.n_foods - j,
        {
            let f = Food::random(rng);
            foods.push(f);
            j = j + 1;
        }
        World { animals, foods }
    }

    /// The agents, in order.
    pub fn animals(&self) -> (r: &Vec<Animal>)
        ensures
            r == &self.animals,
    {
        &self.animals
    }

    /// The foods, in order.
    pub fn foods(&self) -> (r: &Vec<Food>)
        ensures
            r == &self.foods,
    {
        &self.foods
    }
}

} // verus!
