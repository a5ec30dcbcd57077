//! The adapter between a live agent and a genetic-algorithm individual:
//! fitness is the satiation count, the chromosome is the brain's flat
//! gene sequence.

use vstd::prelude::*;
use crate::chromosome::{Chromosome, genes_in_range};
use crate::ga::Individual;
use crate::animal::{Animal, animal_wf};
use crate::network::{Network, net_genes, expected_weights, lemma_net_genes_len,
    lemma_matches_implies_wf};
use crate::config::{Config, config_wf, config_topology, reset_speed, lemma_config_topology_wf};

verus! {

/// Fitness plus chromosome, decoupled from the live agent.
pub struct AnimalIndividual {
    pub fitness: u64,
    pub chromosome: Chromosome,
}

impl Individual for AnimalIndividual {
    open spec fn genes(&self) -> Seq<i64> {
        self.chromosome@
    }

    open spec fn sfitness(&self) -> u64 {
        self.fitness
    }

    fn fitness(&self) -> (f: u64) {
        self.fitness
    }

    fn chromosome(&self) -> (c: &Chromosome) {
        &self.chromosome
    }

    fn create(chromosome: Chromosome) -> (r: Self) {
        AnimalIndividual { fitness: 0, chromosome }
    }
}

impl AnimalIndividual {
    /// Capture an agent: fitness from its satiation, chromosome from its
    /// brain's flat genes.
    pub fn from_animal(animal: &Animal) -> (r: AnimalIndividual)
        ensures
            r.sfitness() == animal.satiation,
            r.genes() == net_genes(animal.brain),
    {
        let ws = animal.brain.weights();
        AnimalIndividual { fitness: animal.satiation, chromosome: Chromosome::from_genes(ws) }
    }

    /// Materialize an agent: rebuild the brain from the chromosome with
    /// the configured topology, reset position, heading and speed, zero
    /// the satiation.
    pub fn into_animal(self, rng: &mut rand_chacha::ChaCha8Rng, c: &Config) -> (r: Animal)
        requires
            config_wf(*c),
            self.genes().len() == expected_weights(config_topology(*c)),
            genes_in_range(self.genes()),
        ensures
            animal_wf(r, *c),
            r.satiation == 0,
            net_genes(r.brain) == self.genes(),
            r.speed == reset_speed(*c),
    {
        proof {
            lemma_config_topology_wf(*c);
        }
        let topo = c.topology();
        let brain = Network::from_weights(&topo, self.chromosome.genes());
        Animal::with_brain(rng, c, brain)
    }
}

} // verus!
