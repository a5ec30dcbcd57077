//! The simulation: one `step` per tick performs collisions, brains and
//! movement in fixed order, then evolution every `generation_length`
//! ticks.
//!
//! Collisions process agent-major, food-minor; a food relocated by an
//! earlier pair is no longer eatable within the same tick.

use vstd::prelude::*;
use crate::fx::{FX_ONE, fx_in_range, fx_clamped, fx_mul_spec, fx_add, fx_mul, iabs};
use crate::trig::{wrap_angle_spec, wrap_angle, fx_sin_spec, fx_cos_spec, fx_sin, fx_cos};
use crate::geom::{P2, p2_on_torus, torus_wrap};
use crate::food::{Food, food_wf};
use crate::eye::{eye_wf, dist2_spec, vision_acc};
use crate::network::{net_out, net_genes, input_size, output_size, neuron_wf, layer_wf,
    expected_weights, lemma_net_genes_len};
use crate::animal::{Animal, animal_wf};
use crate::world::{World, world_wf};
use crate::config::{Config, config_wf, config_topology, standard_config, reset_speed,
    lemma_config_topology_wf};
use crate::chromosome::genes_in_range;
use crate::ga::{GeneticAlgorithm, RouletteWheelSelection, UniformCrossover, GaussianMutation,
    Individual, MutationMethod, uniform_genomes, slot_from_parents, slot_ok, evolved_from};
use crate::animal_individual::AnimalIndividual;

verus! {

/// Pre-evolution fitness summary of a population.
#[derive(Clone, Copy, Debug, PartialEq, Eq, Structural)]
pub struct Statistics {
    pub min_fitness: u64,
    pub max_fitness: u64,
    pub avg_fitness: u64,
}

/// The simulation: a world, the genetic algorithm, an age counter and the
/// configuration.
pub struct Simulation {
    pub config: Config,
    pub world: World,
    pub age: u64,
    pub ga: GeneticAlgorithm<RouletteWheelSelection, UniformCrossover, GaussianMutation>,
}

/// Everything of `sim_wf` except the age bound; the age may exceed the
/// generation length for the moment between the tick count and the
/// evolution cycle that resets it.
pub open spec fn sim_core_wf(s: Simulation) -> bool {
    &&& config_wf(s.config)
    &&& world_wf(s.world, s.config)
    &&& s.ga.mutation_method.chance == s.config.mutation_chance
    &&& s.ga.mutation_method.coefficient == s.config.mutation_coefficient
}

/// The simulation invariant: a well-formed configuration and world, the
/// age within one generation, and the mutation strategy tuned as the
/// configuration says.
pub open spec fn sim_wf(s: Simulation) -> bool {
    &&& sim_core_wf(s)
    &&& s.age <= s.config.generation_length
}

/// `v` clamped into `[lo, hi]`.
pub open spec fn clampi(v: int, lo: int, hi: int) -> int {
    if v < lo {
        lo
    } else if v > hi {
        hi
    } else {
        v
    }
}

fn clamp_to(v: i64, lo: i64, hi: i64) -> (r: i64)
    requires
        lo <= hi,
    ensures
        r == clampi(v as int, lo as int, hi as int),
{
    if v < lo {
        lo
    } else if v > hi {
        hi
    } else {
        v
    }
}

/// Saturating satiation bump.
pub open spec fn sat_add(s: u64, d: int) -> u64 {
    if s + d > u64::MAX {
        u64::MAX
    } else {
        (s + d) as u64
    }
}

/// An agent at `apos` eats a food within the eating radius: squared torus
/// distance at most the squared radius.
pub open spec fn collides(apos: P2, f: Food, radius: int) -> bool {
    dist2_spec(apos, f.position) <= fx_mul_spec(radius, radius)
}

/// Which foods are already relocated after one agent's pass.
pub open spec fn flags_after(apos: P2, foods: Seq<Food>, flags: Seq<bool>, radius: int) -> Seq<
    bool,
> {
    Seq::new(flags.len(), |j: int| flags[j] || collides(apos, foods[j], radius))
}

/// Which foods are already relocated before agent `i`'s pass, processing
/// agents in order against the tick's starting food positions.
pub open spec fn flags_chain(animals: Seq<Animal>, foods: Seq<Food>, radius: int, i: int) -> Seq<
    bool,
>
    decreases i,
{
    if i <= 0 {
        Seq::new(foods.len(), |j: int| false)
    } else {
        flags_after(animals[i - 1].position, foods, flags_chain(animals, foods, radius, i - 1), radius)
    }
}

/// How many of the first `k` foods one agent eats, given which foods were
/// already relocated.
pub open spec fn eat_count(apos: P2, foods: Seq<Food>, flags: Seq<bool>, radius: int, k: int) -> int
    decreases k,
{
    if k <= 0 {
        0int
    } else {
        eat_count(apos, foods, flags, radius, k - 1) + (if !flags[k - 1] && collides(
            apos,
            foods[k - 1],
            radius,
        ) {
            1int
        } else {
            0int
        })
    }
}

/// How many foods agent `i` eats this tick.
pub open spec fn animal_eaten(animals: Seq<Animal>, foods: Seq<Food>, radius: int, i: int) -> int {
    eat_count(
        animals[i].position,
        foods,
        flags_chain(animals, foods, radius, i),
        radius,
        foods.len() as int,
    )
}

/// Everything but the satiation counter agrees.
pub open spec fn same_but_satiation(a: Animal, b: Animal) -> bool {
    &&& a.position == b.position
    &&& a.rotation == b.rotation
    &&& a.speed == b.speed
    &&& a.eye == b.eye
    &&& a.brain == b.brain
}

/// The new agent's brain genome has the two parents' common length, and
/// each gene is within `bound` of the corresponding gene of one of the two
/// parents' brains.
pub open spec fn brain_from_parents(child: Animal, pa: Animal, pb: Animal, bound: int) -> bool {
    &&& net_genes(child.brain).len() == net_genes(pa.brain).len()
    &&& forall|g: int|
        0 <= g < net_genes(child.brain).len() ==> iabs(
            #[trigger] net_genes(child.brain)[g] - net_genes(pa.brain)[g],
        ) <= bound || iabs(net_genes(child.brain)[g] - net_genes(pb.brain)[g]) <= bound
}

/// The agent's brain descends from two members of the old population by
/// crossover and bounded mutation.
pub open spec fn brain_ancestry_ok(child: Animal, old_pop: Seq<Animal>, bound: int) -> bool {
    exists|ia: int, ib: int|
        0 <= ia < old_pop.len() && 0 <= ib < old_pop.len() && brain_from_parents(
            child,
            #[trigger] old_pop[ia],
            #[trigger] old_pop[ib],
            bound,
        )
}

/// Every new agent's brain descends from two old agents' brains.
pub open spec fn brains_evolved_from(new: Seq<Animal>, old_pop: Seq<Animal>, bound: int) -> bool {
    forall|k: int| 0 <= k < new.len() ==> brain_ancestry_ok(#[trigger] new[k], old_pop, bound)
}

/// The collision phase applied to one agent: only the satiation counter
/// moves, by the eaten count of this tick.
pub open spec fn animal_after_collisions(
    animals: Seq<Animal>,
    foods: Seq<Food>,
    radius: int,
    k: int,
) -> Animal {
    Animal {
        position: animals[k].position,
        rotation: animals[k].rotation,
        speed: animals[k].speed,
        eye: animals[k].eye,
        brain: animals[k].brain,
        satiation: sat_add(animals[k].satiation, animal_eaten(animals, foods, radius, k)),
    }
}

/// The brain phase applied to one agent: perception, propagation, clamped
/// acceleration and turn, speed and heading update.
pub open spec fn animal_after_brain(a: Animal, foods: Seq<Food>, c: Config) -> Animal {
    let vis = vision_acc(a.eye, a.position, a.rotation as int, foods);
    let out = net_out(a.brain, vis);
    let accel = clampi(out[0] as int, -(c.speed_accel as int), c.speed_accel as int);
    let rot_d = clampi(out[1] as int, -(c.rotation_accel as int), c.rotation_accel as int);
    Animal {
        position: a.position,
        rotation: wrap_angle_spec(a.rotation + rot_d) as i64,
        speed: clampi(
            fx_clamped(a.speed + accel),
            c.speed_min as int,
            c.speed_max as int,
        ) as i64,
        eye: a.eye,
        brain: a.brain,
        satiation: a.satiation,
    }
}

/// The movement phase applied to one agent: advance by `speed` along the
/// heading, both coordinates wrapped back onto the torus.
pub open spec fn animal_after_move(a: Animal) -> Animal {
    let dx = -fx_mul_spec(a.speed as int, fx_sin_spec(a.rotation as int));
    let dy = fx_mul_spec(a.speed as int, fx_cos_spec(a.rotation as int));
    Animal {
        position: P2 {
            x: ((a.position.x + dx) % (FX_ONE as int)) as i64,
            y: ((a.position.y + dy) % (FX_ONE as int)) as i64,
        },
        rotation: a.rotation,
        speed: a.speed,
        eye: a.eye,
        brain: a.brain,
        satiation: a.satiation,
    }
}

/// Sum of the agents' satiation counters.
pub open spec fn total_sat(s: Seq<Animal>) -> int
    decreases s.len(),
{
    if s.len() == 0 {
        0int
    } else {
        total_sat(s.drop_last()) + s.last().satiation
    }
}

/// Least satiation counter of a non-empty agent sequence.
pub open spec fn min_sat(s: Seq<Animal>) -> u64
    decreases s.len(),
{
    if s.len() <= 1 {
        s[0].satiation
    } else {
        let m = min_sat(s.drop_last());
        if s.last().satiation < m {
            s.last().satiation
        } else {
            m
        }
    }
}

/// Greatest satiation counter of a non-empty agent sequence.
pub open spec fn max_sat(s: Seq<Animal>) -> u64
    decreases s.len(),
{
    if s.len() <= 1 {
        s[0].satiation
    } else {
        let m = max_sat(s.drop_last());
        if s.last().satiation > m {
            s.last().satiation
        } else {
            m
        }
    }
}

impl Simulation {
    /// A fresh simulation under an explicit configuration.
    pub fn with_config(rng: &mut rand_chacha::ChaCha8Rng, config: Config) -> (r: Simulation)
        requires
            config_wf(config),
        ensures
            sim_wf(r),
            r.config == config,
            r.age == 0,
            forall|i: int|
                0 <= i < r.world.animals@.len() ==> (#[trigger] r.world.animals@[i]).satiation
                    == 0,
    {
        let world = World::random(rng, &config);
        let ga = GeneticAlgorithm::new(
            RouletteWheelSelection,
            UniformCrossover,
            GaussianMutation::new(config.mutation_chance, config.mutation_coefficient),
        );
        Simulation { config, world, age: 0, ga }
    }

    /// A fresh simulation under the standard configuration: every agent
    /// starts with zero satiation.
    pub fn random(rng: &mut rand_chacha::ChaCha8Rng) -> (r: Simulation)
        ensures
            sim_wf(r),
            r.age == 0,
            r.config == standard_config(),
            forall|i: int|
                0 <= i < r.world.animals@.len() ==> (#[trigger] r.world.animals@[i]).satiation
                    == 0,
    {
        let config = Config::standard();
        Simulation::with_config(rng, config)
    }

    /// Read-only world snapshot.
    pub fn world(&self) -> (r: &World)
        ensures
            r == &self.world,
    {
        &self.world
    }

    /// Ticks since the last evolution cycle.
    pub fn age(&self) -> (r: u64)
        ensures
            r == self.age,
    {
        self.age
    }

    /// Collision phase: agent-major, food-minor; each eaten food bumps the
    /// agent's satiation and is relocated to a fresh random position, and
    /// is no longer eatable within the same tick.
    fn process_collisions(&mut self, rng: &mut rand_chacha::ChaCha8Rng)
        requires
            sim_wf(*old(self)),
        ensures
            final(self).config == old(self).config,
            final(self).age == old(self).age,
            final(self).ga == old(self).ga,
            final(self).world.animals@.len() == old(self).world.animals@.len(),
            final(self).world.foods@.len() == old(self).world.foods@.len(),
            forall|k: int|
                0 <= k < final(self).world.animals@.len() ==> same_but_satiation(
                    #[trigger] final(self).world.animals@[k],
                    old(self).world.animals@[k],
                ),
            forall|k: int|
                0 <= k < final(self).world.animals@.len() ==> (
                #[trigger] final(self).world.animals@[k]).satiation == sat_add(
                    old(self).world.animals@[k].satiation,
                    animal_eaten(
                        old(self).world.animals@,
                        old(self).world.foods@,
                        old(self).config.eating_radius as int,
                        k,
                    ),
                ),
            forall|j: int|
                0 <= j < final(self).world.foods@.len() && !flags_chain(
                    old(self).world.animals@,
                    old(self).world.foods@,
                    old(self).config.eating_radius as int,
                    old(self).world.animals@.len() as int,
                )[j] ==> #[trigger] final(self).world.foods@[j] == old(self).world.foods@[j],
            world_wf(final(self).world, final(self).config),
    {
        let ghost animals0 = self.world.animals@;
        let ghost foods0 = self.world.foods@;
        let ghost radius_g = self.config.eating_radius as int;
        let radius = self.config.eating_radius;
        let r2 = fx_mul(radius, radius);
        let nf = self.world.foods.len();
        let mut eaten: Vec<bool> = Vec::new();
        let mut t: usize = 0;
        while t < nf
            invariant
                t <= nf,
                eaten@.len() == t,
                forall|j: int| 0 <= j < t ==> !(#[trigger] eaten@[j]),
            decreases nf - t,
        {
            eaten.push(false);
            t = t + 1;
        }
        proof {
            assert(eaten@ =~= flags_chain(animals0, foods0, radius_g, 0));
        }
        let na = self.world.animals.len();
        let mut i: usize = 0;
        while i < na
            invariant
                i <= na,
                na == animals0.len(),
                nf == foods0.len(),
                config_wf(self.config),
                self.config == old(self).config,
                self.age == old(self).age,
                self.ga == old(self).ga,
                radius == self.config.eating_radius,
                r2 == fx_mul_spec(radius as int, radius as int),
                radius_g == radius as int,
                self.world.animals@.len() == na,
                self.world.foods@.len() == nf,
                eaten@.len() == nf,
                eaten@ == flags_chain(animals0, foods0, radius_g, i as int),
                forall|j: int|
                    0 <= j < nf && !eaten@[j] ==> #[trigger] self.world.foods@[j] == foods0[j],
                forall|j: int| 0 <= j < nf ==> food_wf(#[trigger] self.world.foods@[j]),
                forall|k: int| i <= k < na ==> #[trigger] self.world.animals@[k] == animals0[k],
                forall|k: int|
                    0 <= k < i ==> same_but_satiation(
                        #[trigger] self.world.animals@[k],
                        animals0[k],
                    ),
                forall|k: int|
                    0 <= k < i ==> (#[trigger] self.world.animals@[k]).satiation == sat_add(
                        animals0[k].satiation,
                        animal_eaten(animals0, foods0, radius_g, k),
                    ),
                forall|k: int| 0 <= k < na ==> animal_wf(#[trigger] animals0[k], self.config),
            decreases na - i,
        {
            let apos = self.world.animals[i].position;
            proof {
                assert(animal_wf(animals0[i as int], self.config));
            }
            let ghost flags_i = eaten@;
            let ghost animals_entry = self.world.animals@;
            let mut cnt: u64 = 0;
            let mut j: usize = 0;
            while j < nf
                invariant
                    j <= nf,
                    nf == foods0.len(),
                    config_wf(self.config),
                    radius_g == radius as int,
                    fx_in_range(radius as int),
                    r2 == fx_mul_spec(radius as int, radius as int),
                    apos == animals0[i as int].position,
                    p2_on_torus(apos),
                    self.world.foods@.len() == nf,
                    eaten@.len() == nf,
                    flags_i.len() == nf,
                    cnt <= j,
                    cnt == eat_count(apos, foods0, flags_i, radius_g, j as int),
                    forall|t2: int|
                        0 <= t2 < nf ==> #[trigger] eaten@[t2] == (flags_i[t2] || (t2 < j
                            && collides(apos, foods0[t2], radius_g))),
                    forall|t2: int|
                        0 <= t2 < nf && !eaten@[t2] ==> #[trigger] self.world.foods@[t2]
                            == foods0[t2],
                    forall|t2: int| 0 <= t2 < nf ==> food_wf(#[trigger] self.world.foods@[t2]),
                    self.world.animals@ == animals_entry,
                    self.config == old(self).config,
                    self.age == old(self).age,
                    self.ga == old(self).ga,
                decreases nf - j,
            {
                let was_eaten = eaten[j];
                if !was_eaten {
                    let fpos = self.world.foods[j].position;
                    proof {
                        assert(self.world.foods@[j as int] == foods0[j as int]);
                        assert(food_wf(foods0[j as int]));
                    }
                    let dx = crate::geom::torus_delta(apos.x, fpos.x);
                    let dy = crate::geom::torus_delta(apos.y, fpos.y);
                    let d2 = fx_add(fx_mul(dx, dx), fx_mul(dy, dy));
                    if d2 <= r2 {
                        proof {
                            assert(collides(apos, foods0[j as int], radius_g));
                        }
                        cnt = cnt + 1;
                        let nfood = Food::random(rng);
                        self.world.foods.set(j, nfood);
                        eaten.set(j, true);
                    } else {
                        proof {
                            assert(!collides(apos, foods0[j as int], radius_g));
                        }
                    }
                }
                j = j + 1;
            }
            proof {
                assert(eaten@ =~= flags_after(apos, foods0, flags_i, radius_g));
                assert(eaten@ =~= flags_chain(animals0, foods0, radius_g, i + 1));
            }
            let mut a = self.world.animals.remove(i);
            let csat = a.satiation;
            let new_sat: u64 = if csat > u64::MAX - cnt {
                u64::MAX
            } else {
                csat + cnt
            };
            a.satiation = new_sat;
            self.world.animals.insert(i, a);
            proof {
                assert(self.world.animals@ =~= animals_entry.update(
                    i as int,
                    self.world.animals@[i as int],
                ));
                assert(same_but_satiation(self.world.animals@[i as int], animals0[i as int]));
            }
            i = i + 1;
        }
        proof {
            assert forall|k: int| 0 <= k < self.world.animals@.len() implies animal_wf(
                #[trigger] self.world.animals@[k],
                self.config,
            ) by {
                assert(animal_wf(animals0[k], self.config));
                assert(same_but_satiation(self.world.animals@[k], animals0[k]));
            }
        }
    }
}

impl Simulation {
    /// Brain phase: for every agent, perceive, propagate, clamp the two
    /// motor outputs and update speed and heading.
    fn process_brains(&mut self)
        requires
            sim_wf(*old(self)),
        ensures
            final(self).config == old(self).config,
            final(self).age == old(self).age,
            final(self).ga == old(self).ga,
            final(self).world.foods == old(self).world.foods,
            final(self).world.animals@.len() == old(self).world.animals@.len(),
            forall|k: int|
                0 <= k < final(self).world.animals@.len() ==> #[trigger] final(self)
                    .world.animals@[k] == animal_after_brain(
                    old(self).world.animals@[k],
                    old(self).world.foods@,
                    old(self).config,
                ),
            world_wf(final(self).world, final(self).config),
    {
        let ghost animals0 = self.world.animals@;
        let na = self.world.animals.len();
        let mut i: usize = 0;
        while i < na
            invariant
                i <= na,
                na == animals0.len(),
                config_wf(self.config),
                self.config == old(self).config,
                self.age == old(self).age,
                self.ga == old(self).ga,
                self.world.foods == old(self).world.foods,
                forall|j: int|
                    0 <= j < self.world.foods@.len() ==> food_wf(#[trigger] self.world.foods@[j]),
                self.world.animals@.len() == na,
                forall|k: int| i <= k < na ==> #[trigger] self.world.animals@[k] == animals0[k],
                forall|k: int| 0 <= k < na ==> animal_wf(#[trigger] animals0[k], self.config),
                forall|k: int|
                    0 <= k < i ==> #[trigger] self.world.animals@[k] == animal_after_brain(
                        animals0[k],
                        self.world.foods@,
                        self.config,
                    ),
                forall|k: int|
                    0 <= k < i ==> animal_wf(#[trigger] self.world.animals@[k], self.config),
            decreases na - i,
        {
            let ghost entry = self.world.animals@;
            let mut a = self.world.animals.remove(i);
            proof {
                assert(a == animals0[i as int]);
                assert(animal_wf(a, self.config));
                assert(eye_wf(a.eye));
            }
            let vision = a.eye.process_vision(a.position, a.rotation, &self.world.foods);
            proof {
                let topo = config_topology(self.config);
                assert(layer_wf(
                    a.brain.layers@[0],
                    topo[0].neurons as nat,
                    topo[1].neurons as nat,
                ));
                assert(neuron_wf(a.brain.layers@[0].neurons@[0], topo[0].neurons as nat));
                assert(input_size(a.brain) == self.config.eye_cells);
                assert(a.brain.layers@.len() == 2);
                assert(layer_wf(
                    a.brain.layers@[1],
                    topo[1].neurons as nat,
                    topo[2].neurons as nat,
                ));
                assert(output_size(a.brain) == 2);
                assert(forall|t: int|
                    0 <= t < vision@.len() ==> fx_in_range(#[trigger] vision@[t] as int));
            }
            let response = a.brain.propagate(vision);
            let accel = clamp_to(response[0], -self.config.speed_accel, self.config.speed_accel);
            let rot_d = clamp_to(
                response[1],
                -self.config.rotation_accel,
                self.config.rotation_accel,
            );
            let new_speed = clamp_to(
                fx_add(a.speed, accel),
                self.config.speed_min,
                self.config.speed_max,
            );
            let new_rot = wrap_angle(a.rotation + rot_d);
            a.speed = new_speed;
            a.rotation = new_rot;
            self.world.animals.insert(i, a);
            proof {
                assert(self.world.animals@ =~= entry.update(i as int, a));
                assert(self.world.animals@[i as int] == animal_after_brain(
                    animals0[i as int],
                    self.world.foods@,
                    self.config,
                ));
            }
            i = i + 1;
        }
    }

    /// Movement phase: for every agent, advance the position by `speed`
    /// along the heading and wrap both coordinates onto the torus.
    fn process_movements(&mut self)
        requires
            sim_wf(*old(self)),
        ensures
            final(self).config == old(self).config,
            final(self).age == old(self).age,
            final(self).ga == old(self).ga,
            final(self).world.foods == old(self).world.foods,
            final(self).world.animals@.len() == old(self).world.animals@.len(),
            forall|k: int|
                0 <= k < final(self).world.animals@.len() ==> #[trigger] final(self)
                    .world.animals@[k] == animal_after_move(old(self).world.animals@[k]),
            world_wf(final(self).world, final(self).config),
    {
        let ghost animals0 = self.world.animals@;
        let na = self.world.animals.len();
        let mut i: usize = 0;
        while i < na
            invariant
                i <= na,
                na == animals0.len(),
                config_wf(self.config),
                self.config == old(self).config,
                self.age == old(self).age,
                self.ga == old(self).ga,
                self.world.foods == old(self).world.foods,
                self.world.animals@.len() == na,
                forall|k: int| i <= k < na ==> #[trigger] self.world.animals@[k] == animals0[k],
                forall|k: int| 0 <= k < na ==> animal_wf(#[trigger] animals0[k], self.config),
                forall|k: int|
                    0 <= k < i ==> #[trigger] self.world.animals@[k] == animal_after_move(
                        animals0[k],
                    ),
                forall|k: int|
                    0 <= k < i ==> animal_wf(#[trigger] self.world.animals@[k], self.config),
            decreases na - i,
        {
            let ghost entry = self.world.animals@;
            let mut a = self.world.animals.remove(i);
            proof {
                assert(a == animals0[i as int]);
                assert(animal_wf(a, self.config));
            }
            let sn = fx_sin(a.rotation);
            let cs = fx_cos(a.rotation);
            let dxm = fx_mul(a.speed, sn);
            let dx = -dxm;
            let dy = fx_mul(a.speed, cs);
            let nx = torus_wrap(a.position.x + dx);
            let ny = torus_wrap(a.position.y + dy);
            a.position = P2 { x: nx, y: ny };
            self.world.animals.insert(i, a);
            proof {
                assert(self.world.animals@ =~= entry.update(i as int, a));
                assert(self.world.animals@[i as int] == animal_after_move(animals0[i as int]));
            }
            i = i + 1;
        }
    }
}

impl Simulation {
    /// One evolution cycle: capture each agent as an individual, evolve
    /// the population, materialize the next generation with fresh
    /// positions and zero satiation, relocate every food, reset the age.
    fn evolve_now(&mut self, rng: &mut rand_chacha::ChaCha8Rng)
        requires
            sim_core_wf(*old(self)),
        ensures
            sim_wf(*final(self)),
            final(self).config == old(self).config,
            final(self).ga == old(self).ga,
            final(self).age == 0,
            final(self).world.animals@.len() == old(self).world.animals@.len(),
            forall|k: int|
                0 <= k < final(self).world.animals@.len() ==> (#[trigger] final(self)
                    .world.animals@[k]).satiation == 0,
            forall|k: int|
                0 <= k < final(self).world.animals@.len() ==> (#[trigger] final(self)
                    .world.animals@[k]).speed == reset_speed(old(self).config),
            brains_evolved_from(
                final(self).world.animals@,
                old(self).world.animals@,
                old(self).config.mutation_coefficient as int,
            ),
    {
        self.age = 0;
        proof {
            lemma_config_topology_wf(self.config);
        }
        let ghost glen = expected_weights(config_topology(self.config));
        let na = self.world.animals.len();
        let mut current: Vec<AnimalIndividual> = Vec::new();
        let mut i: usize = 0;
        while i < na
            invariant
                i <= na,
                self.config == old(self).config,
                self.ga == old(self).ga,
                self.age == 0,
                self.world == old(self).world,
                sim_core_wf(*old(self)),
                na == self.world.animals@.len(),
                config_wf(self.config),
                glen == expected_weights(config_topology(self.config)),
                forall|k: int|
                    0 <= k < na ==> animal_wf(#[trigger] self.world.animals@[k], self.config),
                current@.len() == i,
                forall|k: int|
                    0 <= k < i ==> (#[trigger] current@[k]).genes().len() == glen,
                forall|k: int| 0 <= k < i ==> genes_in_range((#[trigger] current@[k]).genes()),
                forall|k: int|
                    0 <= k < i ==> (#[trigger] current@[k]).genes() == net_genes(
                        self.world.animals@[k].brain,
                    ),
            decreases na - i,
        {
            let ind = AnimalIndividual::from_animal(&self.world.animals[i]);
            proof {
                lemma_net_genes_len(
                    self.world.animals@[i as int].brain,
                    config_topology(self.config),
                );
            }
            current.push(ind);
            i = i + 1;
        }
        proof {
            assert(uniform_genomes(current@));
        }
        let evolved = self.ga.evolve(rng, &current);
        let ghost current_g = current@;
        let ghost coeff: int = old(self).config.mutation_coefficient as int;
        let ghost orig_ev = evolved@;
        proof {
            assert(current@[0].genes().len() == glen);
            assert(self.ga.mutation_method.bound() == coeff);
            assert(evolved_from(orig_ev, current_g, coeff));
        }
        let mut pending = evolved;
        let mut new_animals: Vec<Animal> = Vec::new();
        while pending.len() > 0
            invariant
                self.config == old(self).config,
                self.ga == old(self).ga,
                self.age == 0,
                self.world == old(self).world,
                sim_core_wf(*old(self)),
                na == old(self).world.animals@.len(),
                config_wf(self.config),
                glen == expected_weights(config_topology(self.config)),
                new_animals@.len() + pending@.len() == na,
                orig_ev.len() == na,
                pending@ == orig_ev.skip(new_animals@.len() as int),
                forall|k: int|
                    0 <= k < pending@.len() ==> (#[trigger] pending@[k]).genes().len() == glen,
                forall|k: int| 0 <= k < pending@.len() ==> genes_in_range(
                    (#[trigger] pending@[k]).genes(),
                ),
                forall|k: int|
                    0 <= k < new_animals@.len() ==> animal_wf(
                        #[trigger] new_animals@[k],
                        self.config,
                    ),
                forall|k: int|
                    0 <= k < new_animals@.len() ==> (#[trigger] new_animals@[k]).satiation == 0,
                forall|k: int|
                    0 <= k < new_animals@.len() ==> (#[trigger] new_animals@[k]).speed
                        == reset_speed(self.config),
                forall|k: int|
                    0 <= k < new_animals@.len() ==> net_genes(
                        (#[trigger] new_animals@[k]).brain,
                    ) == orig_ev[k].genes(),
            decreases pending@.len(),
        {
            proof {
                assert(pending@[0] == orig_ev[new_animals@.len() as int]);
                assert(orig_ev.skip(new_animals@.len() as int).remove(0int) =~= orig_ev.skip(
                    new_animals@.len() as int + 1,
                ));
            }
            let ind = pending.remove(0);
            let a = ind.into_animal(rng, &self.config);
            new_animals.push(a);
        }
        proof {
            assert(new_animals@.len() == na);
        }
        self.world.animals = new_animals;
        proof {
            let old_an = old(self).world.animals@;
            assert forall|k: int| 0 <= k < self.world.animals@.len() implies brain_ancestry_ok(
                #[trigger] self.world.animals@[k],
                old_an,
                coeff,
            ) by {
                assert(slot_ok(orig_ev[k], current_g, coeff));
                let (ia, ib) = choose|ia: int, ib: int|
                    0 <= ia < current_g.len() && 0 <= ib < current_g.len() && slot_from_parents(
                        orig_ev[k],
                        current_g[ia],
                        current_g[ib],
                        coeff,
                    );
                let child = self.world.animals@[k];
                assert(net_genes(child.brain) == orig_ev[k].genes());
                assert(current_g[ia].genes() == net_genes(old_an[ia].brain));
                assert(current_g[ib].genes() == net_genes(old_an[ib].brain));
                assert forall|g: int| 0 <= g < net_genes(child.brain).len() implies iabs(
                    #[trigger] net_genes(child.brain)[g] - net_genes(old_an[ia].brain)[g],
                ) <= coeff || iabs(net_genes(child.brain)[g] - net_genes(old_an[ib].brain)[g])
                    <= coeff by {
                    assert(iabs(orig_ev[k].genes()[g] - current_g[ia].genes()[g]) <= coeff || iabs(
                        orig_ev[k].genes()[g] - current_g[ib].genes()[g],
                    ) <= coeff);
                }
                assert(brain_from_parents(child, old_an[ia], old_an[ib], coeff));
            }
            assert(brains_evolved_from(self.world.animals@, old(self).world.animals@, coeff));
        }
        let nf = self.world.foods.len();
        let mut j: usize = 0;
        while j < nf
            invariant
                j <= nf,
                self.config == old(self).config,
                self.ga == old(self).ga,
                self.age == 0,
                sim_core_wf(*old(self)),
                nf == self.world.foods@.len(),
                nf == old(self).config.n_foods,
                self.world.animals@.len() == old(self).world.animals@.len(),
                forall|k: int|
                    0 <= k < self.world.animals@.len() ==> animal_wf(
                        #[trigger] self.world.animals@[k],
                        self.config,
                    ),
                forall|k: int|
                    0 <= k < self.world.animals@.len() ==> (
                    #[trigger] self.world.animals@[k]).satiation == 0,
                forall|k: int|
                    0 <= k < self.world.animals@.len() ==> (
                    #[trigger] self.world.animals@[k]).speed == reset_speed(old(self).config),
                brains_evolved_from(
                    self.world.animals@,
                    old(self).world.animals@,
                    old(self).config.mutation_coefficient as int,
                ),
                forall|k: int| 0 <= k < nf ==> food_wf(#[trigger] self.world.foods@[k]),
            decreases nf - j,
        {
            let f = Food::random(rng);
            self.world.foods.set(j, f);
            j = j + 1;
        }
    }

    /// One tick: collisions, brains, movement; then, past the generation
    /// length, one evolution cycle and an age reset.
    pub fn step(&mut self, rng: &mut rand_chacha::ChaCha8Rng)
        requires
            sim_wf(*old(self)),
        ensures
            sim_wf(*final(self)),
            final(self).config == old(self).config,
            final(self).world.animals@.len() == old(self).world.animals@.len(),
            old(self).age + 1 > old(self).config.generation_length ==> final(self).age == 0
                && (forall|k: int|
                0 <= k < final(self).world.animals@.len() ==> (#[trigger] final(self)
                    .world.animals@[k]).satiation == 0) && (forall|k: int|
                0 <= k < final(self).world.animals@.len() ==> (#[trigger] final(self)
                    .world.animals@[k]).speed == reset_speed(old(self).config))
                && brains_evolved_from(
                final(self).world.animals@,
                old(self).world.animals@,
                old(self).config.mutation_coefficient as int,
            ),
            old(self).age + 1 <= old(self).config.generation_length ==> final(self).age == old(
                self,
            ).age + 1 && final(self).world.foods@.len() == old(self).world.foods@.len() && (forall|
                k: int,
            |
                0 <= k < final(self).world.animals@.len() ==> #[trigger] final(self)
                    .world.animals@[k] == animal_after_move(
                    animal_after_brain(
                        animal_after_collisions(
                            old(self).world.animals@,
                            old(self).world.foods@,
                            old(self).config.eating_radius as int,
                            k,
                        ),
                        final(self).world.foods@,
                        old(self).config,
                    ),
                )) && (forall|j: int|
                0 <= j < final(self).world.foods@.len() && !flags_chain(
                    old(self).world.animals@,
                    old(self).world.foods@,
                    old(self).config.eating_radius as int,
                    old(self).world.animals@.len() as int,
                )[j] ==> #[trigger] final(self).world.foods@[j] == old(self).world.foods@[j])
                && (forall|k: int|
                0 <= k < final(self).world.animals@.len() ==> (#[trigger] final(self)
                    .world.animals@[k]).brain == old(self).world.animals@[k].brain) && (forall|
                k: int,
            |
                0 <= k < final(self).world.animals@.len() ==> (#[trigger] final(self)
                    .world.animals@[k]).satiation == sat_add(
                    old(self).world.animals@[k].satiation,
                    animal_eaten(
                        old(self).world.animals@,
                        old(self).world.foods@,
                        old(self).config.eating_radius as int,
                        k,
                    ),
                )),
    {
        let ghost animals0 = self.world.animals@;
        let ghost foods0 = self.world.foods@;
        let ghost radius: int = self.config.eating_radius as int;
        self.process_collisions(rng);
        let ghost after_c = self.world.animals@;
        let ghost foods_mid = self.world.foods@;
        proof {
            assert(sim_wf(*self));
            assert forall|k: int| 0 <= k < after_c.len() implies #[trigger] after_c[k]
                == animal_after_collisions(animals0, foods0, radius, k) by {
                assert(same_but_satiation(after_c[k], animals0[k]));
            }
        }
        self.process_brains();
        let ghost after_b = self.world.animals@;
        proof {
            assert(sim_wf(*self));
            assert forall|k: int| 0 <= k < after_b.len() implies (#[trigger] after_b[k]).brain
                == after_c[k].brain && after_b[k].satiation == after_c[k].satiation by {
                assert(after_b[k] == animal_after_brain(after_c[k], self.world.foods@, self.config));
            }
        }
        self.process_movements();
        proof {
            assert(sim_wf(*self));
            assert forall|k: int| 0 <= k < self.world.animals@.len() implies (
            #[trigger] self.world.animals@[k]).brain == animals0[k].brain
                && self.world.animals@[k].satiation == sat_add(
                animals0[k].satiation,
                animal_eaten(animals0, foods0, self.config.eating_radius as int, k),
            ) by {
                assert(self.world.animals@[k] == animal_after_move(after_b[k]));
                assert(same_but_satiation(after_c[k], animals0[k]));
            }
        }
        let ghost after_m = self.world.animals@;
        self.age = self.age + 1;
        if self.age > self.config.generation_length {
            self.evolve_now(rng);
            proof {
                let coeff = old(self).config.mutation_coefficient as int;
                assert forall|k: int| 0 <= k < self.world.animals@.len() implies
                    brain_ancestry_ok(#[trigger] self.world.animals@[k], animals0, coeff) by {
                    let child = self.world.animals@[k];
                    assert(brain_ancestry_ok(child, after_m, coeff));
                    let (ia, ib) = choose|ia: int, ib: int|
                        0 <= ia < after_m.len() && 0 <= ib < after_m.len() && brain_from_parents(
                            child,
                            after_m[ia],
                            after_m[ib],
                            coeff,
                        );
                    assert(after_m[ia].brain == animals0[ia].brain);
                    assert(after_m[ib].brain == animals0[ib].brain);
                    assert(brain_from_parents(child, animals0[ia], animals0[ib], coeff));
                }
            }
        } else {
            proof {
                assert(self.world.foods@ == foods_mid);
                assert forall|k: int| 0 <= k < self.world.animals@.len() implies
                    #[trigger] self.world.animals@[k] == animal_after_move(
                    animal_after_brain(
                        animal_after_collisions(animals0, foods0, radius, k),
                        self.world.foods@,
                        self.config,
                    ),
                ) by {
                    assert(after_b[k] == animal_after_brain(after_c[k], foods_mid, self.config));
                    assert(self.world.animals@[k] == animal_after_move(after_b[k]));
                }
            }
        }
    }

    /// Force an evolution cycle now, reporting the pre-evolution
    /// population's fitness summary: minimum, maximum and average
    /// satiation.
    pub fn train(&mut self, rng: &mut rand_chacha::ChaCha8Rng) -> (stats: Statistics)
        requires
            sim_wf(*old(self)),
        ensures
            sim_wf(*final(self)),
            final(self).config == old(self).config,
            final(self).age == 0,
            forall|k: int|
                0 <= k < final(self).world.animals@.len() ==> (#[trigger] final(self)
                    .world.animals@[k]).satiation == 0,
            forall|k: int|
                0 <= k < final(self).world.animals@.len() ==> (#[trigger] final(self)
                    .world.animals@[k]).speed == reset_speed(old(self).config),
            brains_evolved_from(
                final(self).world.animals@,
                old(self).world.animals@,
                old(self).config.mutation_coefficient as int,
            ),
            stats.min_fitness == min_sat(old(self).world.animals@),
            stats.max_fitness == max_sat(old(self).world.animals@),
            stats.avg_fitness == total_sat(old(self).world.animals@) / (old(
                self,
            ).world.animals@.len() as int),
    {
        let ghost animals0 = self.world.animals@;
        let na = self.world.animals.len();
        let mut mn: u64 = self.world.animals[0].satiation;
        let mut mx: u64 = mn;
        let mut tot: u128 = mn as u128;
        proof {
            assert(animals0.take(1)[0] == animals0[0]);
            assert(animals0.take(1).len() == 1);
            assert(animals0.take(1).drop_last() =~= animals0.take(0));
            assert(animals0.take(1).last() == animals0[0]);
            assert(total_sat(animals0.take(0)) == 0);
            assert(mn == min_sat(animals0.take(1)));
            assert(mx == max_sat(animals0.take(1)));
            assert(tot == total_sat(animals0.take(1)));
        }
        let mut i: usize = 1;
        while i < na
            invariant
                1 <= i <= na,
                na == animals0.len(),
                *self == *old(self),
                sim_wf(*old(self)),
                self.world.animals@ == animals0,
                mn == min_sat(animals0.take(i as int)),
                mx == max_sat(animals0.take(i as int)),
                tot == total_sat(animals0.take(i as int)),
                tot <= i * 0xFFFF_FFFF_FFFF_FFFFu64,
            decreases na - i,
        {
            proof {
                assert(animals0.take(i + 1).drop_last() =~= animals0.take(i as int));
                assert(animals0.take(i + 1).last() == animals0[i as int]);
                vstd::arithmetic::mul::lemma_mul_is_distributive_add_other_way(
                    0xFFFF_FFFF_FFFF_FFFFu64 as int,
                    i as int,
                    1,
                );
                vstd::arithmetic::mul::lemma_mul_basics(0xFFFF_FFFF_FFFF_FFFFu64 as int);
                vstd::arithmetic::mul::lemma_mul_inequality(
                    i + 1,
                    na as int,
                    0xFFFF_FFFF_FFFF_FFFFu64 as int,
                );
            }
            let s = self.world.animals[i].satiation;
            if s < mn {
                mn = s;
            }
            if s > mx {
                mx = s;
            }
            tot = tot + (s as u128);
            i = i + 1;
        }
        proof {
            assert(animals0.take(na as int) =~= animals0);
            vstd::arithmetic::div_mod::lemma_div_is_ordered(
                tot as int,
                na as int * 0xFFFF_FFFF_FFFF_FFFFu64 as int,
                na as int,
            );
            vstd::arithmetic::div_mod::lemma_div_multiples_vanish(
                0xFFFF_FFFF_FFFF_FFFFu64 as int,
                na as int,
            );
            vstd::arithmetic::mul::lemma_mul_is_commutative(
                na as int,
                0xFFFF_FFFF_FFFF_FFFFu64 as int,
            );
            vstd::arithmetic::div_mod::lemma_div_pos_is_pos(tot as int, na as int);
        }
        let avg = (tot / (na as u128)) as u64;
        let stats = Statistics { min_fitness: mn, max_fitness: mx, avg_fitness: avg };
        self.evolve_now(rng);
        stats
    }
}

} // verus!
