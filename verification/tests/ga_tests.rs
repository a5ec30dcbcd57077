use std::collections::BTreeMap;

use rand::SeedableRng;
use rand_chacha::ChaCha8Rng;

use evosim::animal_individual::AnimalIndividual;
use evosim::chromosome::Chromosome;
use evosim::fx::FX_ONE;
use evosim::ga::{
    CrossoverMethod, GaussianMutation, GeneticAlgorithm, Individual, MutationMethod,
    RouletteWheelSelection, SelectionMethod, UniformCrossover,
};

fn individual_with_fitness(fitness: u64) -> AnimalIndividual {
    AnimalIndividual { fitness, chromosome: Chromosome::from_genes(vec![]) }
}

fn chromosome(genes: &[i64]) -> Chromosome {
    Chromosome::from_genes(genes.to_vec())
}

#[test]
fn roulette_wheel_selection() {
    let mut rng = ChaCha8Rng::from_seed(Default::default());

    let population = vec![
        individual_with_fitness(10),
        individual_with_fitness(1),
        individual_with_fitness(2),
        individual_with_fitness(5),
    ];

    let mut actual_histogram: BTreeMap<u64, u32> = BTreeMap::new();
    for _ in 0..1000 {
        let fitness = RouletteWheelSelection.select(&mut rng, &population).fitness();
        *actual_histogram.entry(fitness).or_insert(0) += 1;
    }

    let expected_histogram: BTreeMap<u64, u32> =
        [(1u64, 60u32), (2, 102), (5, 283), (10, 555)].into_iter().collect();
    assert_eq!(actual_histogram, expected_histogram);
}

#[test]
fn roulette_wheel_selection_all_zero_fitness_falls_back_to_uniform() {
    let mut rng = ChaCha8Rng::from_seed(Default::default());
    let population = vec![
        individual_with_fitness(0),
        individual_with_fitness(0),
        individual_with_fitness(0),
    ];
    // The documented fallback: the draw still succeeds and returns a member.
    for _ in 0..100 {
        let picked = RouletteWheelSelection.select(&mut rng, &population);
        assert_eq!(picked.fitness(), 0);
    }
}

#[test]
fn uniform_crossover() {
    let mut rng = ChaCha8Rng::from_seed(Default::default());
    let parent_a = Chromosome::from_genes((1..=100).map(|n: i64| n * FX_ONE).collect());
    let parent_b = Chromosome::from_genes((1..=100).map(|n: i64| -n * FX_ONE).collect());

    let child = UniformCrossover.crossover(&mut rng, &parent_a, &parent_b);

    let mut diff_a = 0;
    let mut diff_b = 0;
    for i in 0..child.len() {
        if child.gene(i) != parent_a.gene(i) {
            diff_a += 1;
        }
        if child.gene(i) != parent_b.gene(i) {
            diff_b += 1;
        }
    }
    assert_eq!(diff_a, 49);
    assert_eq!(diff_b, 51);
}

#[test]
fn uniform_crossover_every_gene_comes_from_a_parent() {
    let mut rng = ChaCha8Rng::from_seed([7; 32]);
    let parent_a = Chromosome::from_genes((0..64).map(|n: i64| n * 1000).collect());
    let parent_b = Chromosome::from_genes((0..64).map(|n: i64| -n * 1000 - 1).collect());
    let child = UniformCrossover.crossover(&mut rng, &parent_a, &parent_b);
    assert_eq!(child.len(), 64);
    for i in 0..child.len() {
        let g = child.gene(i);
        assert!(g == parent_a.gene(i) || g == parent_b.gene(i));
    }
}

fn mutated(chance: i64, coefficient: i64) -> Vec<i64> {
    let mut rng = ChaCha8Rng::from_seed(Default::default());
    let mut child = chromosome(&[FX_ONE, 2 * FX_ONE, 3 * FX_ONE, 5 * FX_ONE, 10 * FX_ONE]);
    GaussianMutation::new(chance, coefficient).mutate(&mut rng, &mut child);
    child.genes().clone()
}

fn original_genes() -> Vec<i64> {
    vec![FX_ONE, 2 * FX_ONE, 3 * FX_ONE, 5 * FX_ONE, 10 * FX_ONE]
}

#[test]
fn does_not_change_original_chromosome() {
    // zero chance, zero coefficient
    assert_eq!(mutated(0, 0), original_genes());
}

#[test]
fn lib_does_not_change_original_chromosome() {
    // zero chance, nonzero coefficient
    assert_eq!(mutated(0, FX_ONE / 2), original_genes());
}

#[test]
fn fifty_fifty_chance_zero_coefficient_does_not_change_original_chromosome() {
    assert_eq!(mutated(FX_ONE / 2, 0), original_genes());
}

#[test]
fn max_chance_zero_coefficient_does_not_change_original_chromosome() {
    assert_eq!(mutated(FX_ONE, 0), original_genes());
}

#[test]
fn slightly_changes_chromosome() {
    // fifty-fifty chance, coefficient one half
    let actual = mutated(FX_ONE / 2, FX_ONE / 2);
    let expected: Vec<i64> = vec![68779, 109260, 196608, 327457, 644792];
    assert_eq!(actual, expected);
}

#[test]
fn entirely_changes_original_chromosome() {
    // full chance, maximum coefficient
    let actual = mutated(FX_ONE, 3 * FX_ONE);
    let expected: Vec<i64> = vec![84994, 200, 256986, 292640, 557977];
    assert_eq!(actual, expected);
    for (a, o) in actual.iter().zip(original_genes()) {
        assert!((a - o).abs() <= 3 * FX_ONE);
    }
}

#[test]
fn mutation_bound_holds_for_every_gene() {
    for seed in 0..10u8 {
        let mut rng = ChaCha8Rng::from_seed([seed; 32]);
        let original: Vec<i64> = (0..32).map(|n: i64| (n - 16) * 5000).collect();
        let mut child = Chromosome::from_genes(original.clone());
        let coefficient = FX_ONE / 2;
        GaussianMutation::new(FX_ONE, coefficient).mutate(&mut rng, &mut child);
        for i in 0..original.len() {
            assert!((child.gene(i) - original[i]).abs() <= coefficient);
        }
    }
}

#[test]
fn genetic_algorithm() {
    fn individual(genes: &[i64]) -> AnimalIndividual {
        let chromosome = chromosome(genes);
        let sum: i64 = chromosome.genes().iter().sum();
        AnimalIndividual { fitness: sum.max(0) as u64, chromosome }
    }

    let mut rng = ChaCha8Rng::from_seed(Default::default());

    let genetic_algo = GeneticAlgorithm::new(
        RouletteWheelSelection,
        UniformCrossover,
        GaussianMutation::new(FX_ONE / 2, FX_ONE / 2),
    );

    let mut population = vec![
        individual(&[0, 0, 0]),
        individual(&[FX_ONE, FX_ONE, FX_ONE]),
        individual(&[FX_ONE, 2 * FX_ONE, FX_ONE]),
        individual(&[FX_ONE, 2 * FX_ONE, 4 * FX_ONE]),
    ];

    for _ in 0..100 {
        let evolved = genetic_algo.evolve(&mut rng, &population);
        // fitness of a fresh individual is the sum of its genes, as the
        // environment would grade it
        population = evolved
            .into_iter()
            .map(|ind| {
                let sum: i64 = ind.chromosome.genes().iter().sum();
                AnimalIndividual { fitness: sum.max(0) as u64, chromosome: ind.chromosome }
            })
            .collect();
    }

    let actual: Vec<Vec<i64>> =
        population.iter().map(|ind| ind.chromosome.genes().clone()).collect();
    let expected: Vec<Vec<i64>> = vec![
        vec![192247, 181364, 298467],
        vec![231340, 159558, 281330],
        vec![238092, 153772, 281330],
        vec![237802, 181364, 344749],
    ];
    assert_eq!(actual, expected);
}
