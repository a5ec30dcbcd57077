use rand::SeedableRng;
use rand_chacha::ChaCha8Rng;

use evosim::chromosome::Chromosome;
use evosim::config::Config;
use evosim::eye::Eye;
use evosim::food::Food;
use evosim::fx::FX_ONE;
use evosim::geom::{torus_wrap, P2};
use evosim::simulation::Simulation;
use evosim::trig::{HALF_PI_FX, PI_FX};
use evosim::world::World;

fn small_config() -> Config {
    Config {
        speed_min: 7,
        speed_max: 33,
        speed_accel: 13107,
        rotation_accel: HALF_PI_FX,
        generation_length: 5,
        eye_fov_angle: PI_FX,
        eye_cells: 3,
        eye_range: 16384,
        brain_hidden: 2,
        mutation_chance: FX_ONE / 100,
        mutation_coefficient: FX_ONE * 3 / 10,
        n_animals: 4,
        n_foods: 6,
        eating_radius: 655,
    }
}

fn worlds_equal(a: &World, b: &World) -> bool {
    if a.animals().len() != b.animals().len() || a.foods().len() != b.foods().len() {
        return false;
    }
    for (x, y) in a.animals().iter().zip(b.animals().iter()) {
        if x.position() != y.position()
            || x.rotation() != y.rotation()
            || x.speed() != y.speed()
            || x.satiation() != y.satiation()
        {
            return false;
        }
    }
    for (x, y) in a.foods().iter().zip(b.foods().iter()) {
        if x.position() != y.position() {
            return false;
        }
    }
    true
}

#[test]
fn changes_step() {
    let mut rng = ChaCha8Rng::from_seed(Default::default());
    let mut sim = Simulation::random(&mut rng);
    let before = sim.world().clone();
    sim.step(&mut rng);
    assert_eq!(sim.age(), 1);
    // the movement phase must have moved at least one agent
    assert!(!worlds_equal(&before, sim.world()));
}

#[test]
fn lib_changes_step() {
    let mut rng = ChaCha8Rng::from_seed([3; 32]);
    let mut sim = Simulation::with_config(&mut rng, small_config());
    let before = sim.world().clone();
    sim.step(&mut rng);
    assert_eq!(sim.age(), 1);
    assert!(!worlds_equal(&before, sim.world()));
}

#[test]
fn same_seed_gives_identical_trajectories() {
    let mut rng1 = ChaCha8Rng::from_seed([9; 32]);
    let mut rng2 = ChaCha8Rng::from_seed([9; 32]);
    let mut sim1 = Simulation::with_config(&mut rng1, small_config());
    let mut sim2 = Simulation::with_config(&mut rng2, small_config());
    assert!(worlds_equal(sim1.world(), sim2.world()));
    for _ in 0..20 {
        sim1.step(&mut rng1);
        sim2.step(&mut rng2);
        assert!(worlds_equal(sim1.world(), sim2.world()));
        assert_eq!(sim1.age(), sim2.age());
    }
}

#[test]
fn torus_wrap_normalizes_the_edges() {
    // exactly 1.0 wraps to 0
    assert_eq!(torus_wrap(FX_ONE), 0);
    // slightly negative wraps just below 1
    assert_eq!(torus_wrap(-7), FX_ONE - 7);
    // in-range values are untouched
    assert_eq!(torus_wrap(0), 0);
    assert_eq!(torus_wrap(FX_ONE - 1), FX_ONE - 1);
    // beyond one full turn
    assert_eq!(torus_wrap(FX_ONE + 5), 5);
    assert_eq!(torus_wrap(-FX_ONE - 5), FX_ONE - 5);
}

#[test]
fn positions_stay_on_the_torus_after_movement() {
    let mut rng = ChaCha8Rng::from_seed([11; 32]);
    let mut sim = Simulation::with_config(&mut rng, small_config());
    for _ in 0..50 {
        sim.step(&mut rng);
        for animal in sim.world().animals().iter() {
            let p = animal.position();
            assert!(0 <= p.x && p.x < FX_ONE);
            assert!(0 <= p.y && p.y < FX_ONE);
        }
    }
}

#[test]
fn train_resets_age_and_satiation() {
    let mut rng = ChaCha8Rng::from_seed([5; 32]);
    let mut sim = Simulation::with_config(&mut rng, small_config());
    for _ in 0..3 {
        sim.step(&mut rng);
    }
    let stats = sim.train(&mut rng);
    assert_eq!(sim.age(), 0);
    for animal in sim.world().animals().iter() {
        assert_eq!(animal.satiation(), 0);
    }
    assert!(stats.min_fitness <= stats.avg_fitness);
    assert!(stats.avg_fitness <= stats.max_fitness);
}

#[test]
fn end_to_end_fixed_seed_run() {
    let mut rng = ChaCha8Rng::from_seed(Default::default());
    let config = small_config();
    let mut sim = Simulation::with_config(&mut rng, config);

    // generation_length + 1 ticks: exactly one evolution cycle
    for tick in 0..6 {
        sim.step(&mut rng);
        if tick < 5 {
            assert_eq!(sim.age(), (tick + 1) as u64);
        }
    }
    assert_eq!(sim.age(), 0);
    for animal in sim.world().animals().iter() {
        assert_eq!(animal.satiation(), 0);
    }

    // captured reference: the first evolved brain's flat genes
    let genes = sim.world().animals()[0].brain.weights();
    assert_eq!(genes.len(), 14);
    let expected: Vec<i64> = vec![
        25117, -19358, 55016, 48934, -51073, -18728, 64981, 4126, -55918, 64339, -15298, 42842,
        -49431, 32166,
    ];
    assert_eq!(genes, expected);
}

#[test]
fn eye_sees_food_ahead_and_misses_food_behind() {
    let eye = Eye { fov_angle: PI_FX, cells: 3, range: 16384 };
    let position = P2 { x: FX_ONE / 2, y: FX_ONE / 2 };

    // heading 0 looks along +y; food slightly ahead
    let ahead = vec![Food { position: P2 { x: FX_ONE / 2, y: FX_ONE / 2 + 6000 } }];
    let vision = eye.process_vision(position, 0, &ahead);
    assert_eq!(vision.len(), 3);
    assert!(vision[1] > 0, "food straight ahead lands in the middle cell");
    assert_eq!(vision[0], 0);
    assert_eq!(vision[2], 0);

    // food behind the agent is outside the field of view
    let behind = vec![Food { position: P2 { x: FX_ONE / 2, y: FX_ONE / 2 - 6000 } }];
    let vision = eye.process_vision(position, 0, &behind);
    assert_eq!(vision, vec![0, 0, 0]);

    // food out of range contributes nothing
    let far = vec![Food { position: P2 { x: FX_ONE / 2, y: FX_ONE / 2 + 30000 } }];
    let vision = eye.process_vision(position, 0, &far);
    assert_eq!(vision, vec![0, 0, 0]);
}

#[test]
fn closer_food_contributes_more() {
    let eye = Eye { fov_angle: PI_FX, cells: 1, range: 16384 };
    let position = P2 { x: FX_ONE / 2, y: FX_ONE / 2 };
    let near = vec![Food { position: P2 { x: FX_ONE / 2, y: FX_ONE / 2 + 2000 } }];
    let far = vec![Food { position: P2 { x: FX_ONE / 2, y: FX_ONE / 2 + 12000 } }];
    let near_v = eye.process_vision(position, 0, &near);
    let far_v = eye.process_vision(position, 0, &far);
    assert!(near_v[0] > far_v[0]);
}

#[test]
fn chromosome_stores_genes_in_order() {
    let c = Chromosome::from_genes(vec![5, -3, 7]);
    assert_eq!(c.len(), 3);
    assert_eq!(c.gene(0), 5);
    assert_eq!(c.gene(1), -3);
    assert_eq!(c.gene(2), 7);
    assert_eq!(c.genes(), &vec![5, -3, 7]);
}
