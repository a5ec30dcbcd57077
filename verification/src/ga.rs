//! The genetic algorithm: fitness-proportionate selection, uniform
//! crossover and gene-wise perturbation, orchestrated over a population of
//! individuals.

use vstd::prelude::*;
use vstd::arithmetic::mul::{lemma_mul_inequality, lemma_mul_is_distributive_add_other_way,
    lemma_mul_basics};
use vstd::arithmetic::div_mod::{lemma_div_is_ordered, lemma_div_multiples_vanish,
    lemma_div_pos_is_pos};
use crate::fx::{FX_ONE, FX_LIM, fx_in_range, fx_clamped, fx_mul_spec, fx_add, fx_sub, fx_mul, iabs};
use crate::chromosome::{Chromosome, genes_in_range};
use crate::rng::{rng_u64_below, rng_coin, rng_unit, rng_below};

verus! {

/// Anything exposing a scalar fitness and a chromosome, and constructible
/// from a chromosome alone.
pub trait Individual: Sized {
    /// The genes, as a ghost sequence.
    spec fn genes(&self) -> Seq<i64>;

    /// The fitness, as a ghost value.
    spec fn sfitness(&self) -> u64;

    fn fitness(&self) -> (f: u64)
        ensures
            f == self.sfitness(),
    ;

    fn chromosome(&self) -> (c: &Chromosome)
        ensures
            c@ == self.genes(),
    ;

    fn create(chromosome: Chromosome) -> (r: Self)
        ensures
            r.genes() == chromosome@,
            r.sfitness() == 0,
    ;
}

/// Sum of a weight sequence.
pub open spec fn total_fitness(s: Seq<u64>) -> int
    decreases s.len(),
{
    if s.len() == 0 {
        0int
    } else {
        total_fitness(s.drop_last()) + s.last()
    }
}

proof fn lemma_total_prefix_step(s: Seq<u64>, k: int)
    requires
        0 <= k < s.len(),
    ensures
        total_fitness(s.take(k + 1)) == total_fitness(s.take(k)) + s[k],
{
    assert(s.take(k + 1).drop_last() =~= s.take(k));
    assert(s.take(k + 1).last() == s[k]);
}

proof fn lemma_total_prefix_mono(s: Seq<u64>, a: int, b: int)
    requires
        0 <= a <= b <= s.len(),
    ensures
        total_fitness(s.take(a)) <= total_fitness(s.take(b)),
    decreases b - a,
{
    if a < b {
        lemma_total_prefix_mono(s, a, b - 1);
        lemma_total_prefix_step(s, b - 1);
    }
}

/// One fitness-proportionate draw over a non-empty weight vector: the
/// probability of index `i` is `weights[i] / total`.  When every weight is
/// zero the draw falls back to a uniform pick, so the result is always an
/// index with positive weight whenever any weight is positive.
pub fn select_weighted_index(rng: &mut rand_chacha::ChaCha8Rng, weights: &Vec<u64>) -> (r: usize)
    requires
        weights@.len() > 0,
    ensures
        r < weights@.len(),
        total_fitness(weights@) > 0 ==> weights@[r as int] > 0,
{
    let n = weights.len();
    let mut total: u128 = 0;
    let mut k: usize = 0;
    while k < n
        invariant
            k <= n,
            n == weights@.len(),
            total == total_fitness(weights@.take(k as int)),
            total <= k * 0xFFFF_FFFF_FFFF_FFFFu64,
        decreases n - k,
    {
        proof {
            lemma_total_prefix_step(weights@, k as int);
            lemma_mul_is_distributive_add_other_way(0xFFFF_FFFF_FFFF_FFFFu64 as int, k as int, 1);
            lemma_mul_basics(0xFFFF_FFFF_FFFF_FFFFu64 as int);
            lemma_mul_inequality(k + 1, n as int, 0xFFFF_FFFF_FFFF_FFFFu64 as int);
        }
        total = total + (weights[k] as u128);
        k = k + 1;
    }
    proof {
        assert(weights@.take(n as int) =~= weights@);
    }
    if total == 0 {
        let u = rng_u64_below(rng, n as u64);
        return u as usize;
    }
    let t = rng_below(rng, total);
    let mut acc: u128 = 0;
    let mut i: usize = 0;
    loop
        invariant
            i < n,
            n == weights@.len(),
            acc == total_fitness(weights@.take(i as int)),
            acc <= t,
            t < total,
            total == total_fitness(weights@),
        ensures
            i < weights@.len(),
            weights@[i as int] > 0,
        decreases n - i,
    {
        proof {
            lemma_total_prefix_step(weights@, i as int);
            lemma_total_prefix_mono(weights@, i + 1, n as int);
            assert(weights@.take(n as int) =~= weights@);
            assert(acc + weights@[i as int] <= total);
        }
        let w = weights[i] as u128;
        if t < acc + w {
            proof {
                assert(acc + w > t >= acc);
            }
            return i;
        }
        acc = acc + w;
        i = i + 1;
        proof {
            assert(total_fitness(weights@.take(i as int)) <= t);
            if i == n {
                assert(weights@.take(i as int) =~= weights@);
                assert(false);
            }
        }
    }
}

/// Fitness-proportionate ("roulette wheel") selection.
pub struct RouletteWheelSelection;

/// A pluggable way of picking one parent out of a population.
pub trait SelectionMethod: Sized {
    fn select<'a, I: Individual>(
        &self,
        rng: &mut rand_chacha::ChaCha8Rng,
        population: &'a Vec<I>,
    ) -> (r: &'a I)
        requires
            population@.len() > 0,
        ensures
            exists|i: int| 0 <= i < population@.len() && *r == population@[i],
    ;
}

impl SelectionMethod for RouletteWheelSelection {
    fn select<'a, I: Individual>(
        &self,
        rng: &mut rand_chacha::ChaCha8Rng,
        population: &'a Vec<I>,
    ) -> (r: &'a I) {
        let mut fs: Vec<u64> = Vec::new();
        let mut k: usize = 0;
        let n = population.len();
        while k < n
            invariant
                k <= n,
                n == population@.len(),
                fs@.len() == k,
                forall|j: int| 0 <= j < k ==> fs@[j] == (#[trigger] population@[j]).sfitness(),
            decreases n - k,
        {
            let f = population[k].fitness();
            fs.push(f);
            k = k + 1;
        }
        let idx = select_weighted_index(rng, &fs);
        &population[idx]
    }
}

/// A pluggable way of combining two parent chromosomes into a child.  Every
/// gene of the child is one of the two parents' genes at the same index.
pub trait CrossoverMethod: Sized {
    fn crossover(
        &self,
        rng: &mut rand_chacha::ChaCha8Rng,
        parent_a: &Chromosome,
        parent_b: &Chromosome,
    ) -> (child: Chromosome)
        requires
            parent_a@.len() == parent_b@.len(),
            genes_in_range(parent_a@),
            genes_in_range(parent_b@),
        ensures
            child@.len() == parent_a@.len(),
            forall|i: int|
                0 <= i < child@.len() ==> child@[i] == parent_a@[i] || child@[i] == parent_b@[i],
            genes_in_range(child@),
    ;
}

/// Uniform crossover: one independent fair coin per gene, parent A's gene
/// on heads, parent B's on tails.
#[derive(Clone, Debug)]
pub struct UniformCrossover;

impl CrossoverMethod for UniformCrossover {
    fn crossover(
        &self,
        rng: &mut rand_chacha::ChaCha8Rng,
        parent_a: &Chromosome,
        parent_b: &Chromosome,
    ) -> (child: Chromosome) {
        let n = parent_a.len();
        let mut genes: Vec<i64> = Vec::new();
        let mut i: usize = 0;
        while i < n
            invariant
                i <= n,
                n == parent_a@.len(),
                parent_a@.len() == parent_b@.len(),
                genes_in_range(parent_a@),
                genes_in_range(parent_b@),
                genes@.len() == i,
                forall|j: int|
                    0 <= j < i ==> genes@[j] == parent_a@[j] || genes@[j] == parent_b@[j],
            decreases n - i,
        {
            let heads = rng_coin(rng, FX_ONE / 2);
            let g = if heads {
                parent_a.gene(i)
            } else {
                parent_b.gene(i)
            };
            genes.push(g);
            i = i + 1;
        }
        let child = Chromosome::from_genes(genes);
        proof {
            assert forall|j: int| 0 <= j < child@.len() implies fx_in_range(
                #[trigger] child@[j] as int,
            ) by {
                assert(child@[j] == parent_a@[j] || child@[j] == parent_b@[j]);
            }
        }
        child
    }
}

/// A pluggable way of perturbing a child chromosome in place.  The
/// strategy names its own largest per-gene change, and every perturbation
/// keeps within it.
pub trait MutationMethod: Sized {
    /// The largest magnitude `mutate` may change any single gene by.
    spec fn bound(&self) -> int;

    fn mutate(&self, rng: &mut rand_chacha::ChaCha8Rng, child: &mut Chromosome)
        requires
            genes_in_range(old(child)@),
        ensures
            final(child)@.len() == old(child)@.len(),
            genes_in_range(final(child)@),
            forall|i: int|
                0 <= i < final(child)@.len() ==> iabs(
                    final(child)@[i] - old(child)@[i],
                ) <= self.bound(),
    ;
}

/// Gene-wise perturbation: per gene, draw a sign, then with probability
/// `chance` add `sign * coefficient * u` with `u` uniform in `[0, 1)`.
#[derive(Clone, Debug)]
pub struct GaussianMutation {
    /// Probability of touching a gene, as a fixed-point fraction of one.
    pub chance: i64,
    /// Largest magnitude of a perturbation, fixed-point, at most three.
    pub coefficient: i64,
}

impl GaussianMutation {
    /// Both bounds are enforced here: `chance` in `[0, 1]`, `coefficient`
    /// in `[0, 3]`.
    pub fn new(chance: i64, coefficient: i64) -> (r: Self)
        requires
            0 <= chance <= FX_ONE,
            0 <= coefficient <= 3 * FX_ONE,
        ensures
            r.chance == chance,
            r.coefficient == coefficient,
    {
        GaussianMutation { chance, coefficient }
    }

    /// Perturb each gene independently.  A zero chance or a zero
    /// coefficient leaves the chromosome exactly unchanged, and no gene
    /// ever moves by more than the coefficient.
    pub fn mutate_genes(&self, rng: &mut rand_chacha::ChaCha8Rng, child: &mut Chromosome)
        requires
            0 <= self.chance <= FX_ONE,
            0 <= self.coefficient <= 3 * FX_ONE,
            genes_in_range(old(child)@),
        ensures
            final(child)@.len() == old(child)@.len(),
            genes_in_range(final(child)@),
            forall|i: int|
                0 <= i < final(child)@.len() ==> iabs(
                    final(child)@[i] - old(child)@[i],
                ) <= self.coefficient,
            self.chance == 0 ==> final(child)@ == old(child)@,
            self.coefficient == 0 ==> final(child)@ == old(child)@,
    {
        let n = child.len();
        let mut i: usize = 0;
        while i < n
            invariant
                i <= n,
                n == child@.len(),
                child@.len() == old(child)@.len(),
                0 <= self.chance <= FX_ONE,
                0 <= self.coefficient <= 3 * FX_ONE,
                genes_in_range(child@),
                forall|j: int| i <= j < n ==> child@[j] == old(child)@[j],
                forall|j: int|
                    0 <= j < i ==> iabs(#[trigger] child@[j] - old(child)@[j]) <= self.coefficient,
                self.chance == 0 ==> (forall|j: int| 0 <= j < n ==> child@[j] == old(child)@[j]),
                self.coefficient == 0 ==> (forall|j: int|
                    0 <= j < n ==> child@[j] == old(child)@[j]),
            decreases n - i,
        {
            let minus = rng_coin(rng, FX_ONE / 2);
            let fire = rng_coin(rng, self.chance);
            if fire {
                let u = rng_unit(rng);
                let delta = fx_mul(self.coefficient, u);
                proof {
                    lemma_mul_inequality(u as int, FX_ONE as int, self.coefficient as int);
                    vstd::arithmetic::mul::lemma_mul_is_commutative(
                        self.coefficient as int,
                        u as int,
                    );
                    lemma_div_is_ordered(
                        self.coefficient * u,
                        (FX_ONE as int) * self.coefficient,
                        FX_ONE as int,
                    );
                    lemma_div_multiples_vanish(self.coefficient as int, FX_ONE as int);
                    vstd::arithmetic::mul::lemma_mul_nonnegative(self.coefficient as int, u as int);
                    lemma_div_pos_is_pos(self.coefficient * u, FX_ONE as int);
                    assert(0 <= delta <= self.coefficient);
                }
                let g = child.gene(i);
                let g2 = if minus {
                    fx_sub(g, delta)
                } else {
                    fx_add(g, delta)
                };
                proof {
                    assert(iabs(g2 - g) <= self.coefficient);
                }
                child.set_gene(i, g2);
            }
            i = i + 1;
        }
        proof {
            if self.chance == 0 {
                assert(child@ =~= old(child)@);
            }
            if self.coefficient == 0 {
                assert(child@ =~= old(child)@);
            }
        }
    }
}

impl MutationMethod for GaussianMutation {
    /// The coefficient, for parameters `new` accepts; a value built around
    /// `new` leaves the chromosome untouched, so its bound is zero.
    open spec fn bound(&self) -> int {
        if 0 <= self.chance <= FX_ONE && 0 <= self.coefficient <= 3 * FX_ONE {
            self.coefficient as int
        } else {
            0
        }
    }

    fn mutate(&self, rng: &mut rand_chacha::ChaCha8Rng, child: &mut Chromosome) {
        // `new` enforces these bounds; a value built around them leaves the
        // chromosome untouched rather than perturb by an unchecked amount.
        if self.chance < 0 || self.chance > FX_ONE || self.coefficient < 0 || self.coefficient > 3
            * FX_ONE {
            return ;
        }
        self.mutate_genes(rng, child)
    }
}

/// All genomes of a population have one common length, every gene in range.
/// The child's genome has the parents' common length, and each of its
/// genes is within `bound` of the corresponding gene of one of the two
/// parents: what one crossover of the parents followed by one bounded
/// mutation can produce.
pub open spec fn slot_from_parents<I: Individual>(child: I, pa: I, pb: I, bound: int) -> bool {
    &&& child.genes().len() == pa.genes().len()
    &&& forall|g: int|
        0 <= g < child.genes().len() ==> iabs(#[trigger] child.genes()[g] - pa.genes()[g])
            <= bound || iabs(child.genes()[g] - pb.genes()[g]) <= bound
}

/// The individual descends from two members of the population by
/// crossover and bounded mutation.
pub open spec fn slot_ok<I: Individual>(child: I, pop: Seq<I>, bound: int) -> bool {
    exists|ia: int, ib: int|
        0 <= ia < pop.len() && 0 <= ib < pop.len() && slot_from_parents(
            child,
            #[trigger] pop[ia],
            #[trigger] pop[ib],
            bound,
        )
}

/// Every member of the new population descends from two members of the
/// old one by crossover and bounded mutation.
pub open spec fn evolved_from<I: Individual>(out: Seq<I>, pop: Seq<I>, bound: int) -> bool {
    forall|s: int| 0 <= s < out.len() ==> slot_ok(#[trigger] out[s], pop, bound)
}

/// All genomes of a population share one length, every gene in range.
pub open spec fn uniform_genomes<I: Individual>(s: Seq<I>) -> bool {
    &&& forall|i: int|
        0 <= i < s.len() ==> (#[trigger] s[i]).genes().len() == s[0].genes().len()
    &&& forall|i: int| 0 <= i < s.len() ==> genes_in_range((#[trigger] s[i]).genes())
}

/// The orchestrator: one selection strategy, one crossover strategy, one
/// mutation strategy, each owned.
pub struct GeneticAlgorithm<S, C, M> {
    pub selection_method: S,
    pub crossover_method: C,
    pub mutation_method: M,
}

impl<S: SelectionMethod, C: CrossoverMethod, M: MutationMethod> GeneticAlgorithm<S, C, M> {
    pub fn new(selection_method: S, crossover_method: C, mutation_method: M) -> (r: Self)
        ensures
            r.selection_method == selection_method,
            r.crossover_method == crossover_method,
            r.mutation_method == mutation_method,
    {
        GeneticAlgorithm { selection_method, crossover_method, mutation_method }
    }

    /// Produce the next generation: for each output slot, select two
    /// parents, cross their chromosomes, mutate the child and materialize
    /// a new individual from it.
    pub fn evolve<I: Individual>(
        &self,
        rng: &mut rand_chacha::ChaCha8Rng,
        population: &Vec<I>,
    ) -> (out: Vec<I>)
        requires
            population@.len() > 0,
            uniform_genomes(population@),
        ensures
            out@.len() == population@.len(),
            forall|i: int|
                0 <= i < out@.len() ==> (#[trigger] out@[i]).genes().len()
                    == population@[0].genes().len(),
            forall|i: int| 0 <= i < out@.len() ==> genes_in_range((#[trigger] out@[i]).genes()),
            forall|i: int| 0 <= i < out@.len() ==> (#[trigger] out@[i]).sfitness() == 0,
            evolved_from(out@, population@, self.mutation_method.bound()),
    {
        let n = population.len();
        let mut out: Vec<I> = Vec::new();
        let mut s: usize = 0;
        while s < n
            invariant
                s <= n,
                n == population@.len(),
                population@.len() > 0,
                uniform_genomes(population@),
                out@.len() == s,
                forall|i: int|
                    0 <= i < s ==> (#[trigger] out@[i]).genes().len()
                        == population@[0].genes().len(),
                forall|i: int| 0 <= i < s ==> genes_in_range((#[trigger] out@[i]).genes()),
                forall|i: int| 0 <= i < s ==> (#[trigger] out@[i]).sfitness() == 0,
                evolved_from(out@, population@, self.mutation_method.bound()),
            decreases n - s,
        {
            let parent_a = self.selection_method.select(rng, population);
            let chrom_a = parent_a.chromosome();
            let parent_b = self.selection_method.select(rng, population);
            let chrom_b = parent_b.chromosome();
            proof {
                let ia = choose|i: int|
                    0 <= i < population@.len() && *parent_a == population@[i];
                let ib = choose|i: int|
                    0 <= i < population@.len() && *parent_b == population@[i];
                assert(parent_a.genes() == population@[ia].genes());
                assert(parent_b.genes() == population@[ib].genes());
            }
            let ghost ia = choose|i: int| 0 <= i < population@.len() && *parent_a
                == population@[i];
            let ghost ib = choose|i: int| 0 <= i < population@.len() && *parent_b
                == population@[i];
            let mut child = self.crossover_method.crossover(rng, chrom_a, chrom_b);
            let ghost crossed = child@;
            self.mutation_method.mutate(rng, &mut child);
            let fresh = I::create(child);
            proof {
                assert forall|g: int| 0 <= g < fresh.genes().len() implies iabs(
                    #[trigger] fresh.genes()[g] - population@[ia].genes()[g],
                ) <= self.mutation_method.bound() || iabs(
                    fresh.genes()[g] - population@[ib].genes()[g],
                ) <= self.mutation_method.bound() by {
                    assert(crossed[g] == population@[ia].genes()[g] || crossed[g]
                        == population@[ib].genes()[g]);
                    assert(iabs(fresh.genes()[g] - crossed[g]) <= self.mutation_method.bound());
                }
                assert(slot_from_parents(
                    fresh,
                    population@[ia],
                    population@[ib],
                    self.mutation_method.bound(),
                ));
            }
            let ghost out_prev = out@;
            out.push(fresh);
            proof {
                let bound = self.mutation_method.bound();
                assert(slot_ok(fresh, population@, bound));
                assert forall|s2: int| 0 <= s2 < out@.len() implies slot_ok(
                    #[trigger] out@[s2],
                    population@,
                    bound,
                ) by {
                    if s2 < out_prev.len() {
                        assert(out@[s2] == out_prev[s2]);
                        assert(slot_ok(out_prev[s2], population@, bound));
                    } else {
                        assert(out@[s2] == fresh);
                    }
                }
            }
            s = s + 1;
        }
        out
    }
}

} // verus!
