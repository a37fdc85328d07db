//! One generational replacement of a population.
use crate::chromosome::Chromosome;
use crate::crossover::CrossoverMethod;
use crate::individual::{Individual, fitness_seq, fitnesses};
use crate::mutation::MutationMethod;
use crate::selection::SelectionMethod;
use crate::statistics::{FitnessStats, compute_stats, lemma_stats_ordered, stats_of};
use rand_chacha::ChaCha8Rng;
use vstd::prelude::*;

verus! {

/// Whether every member's genome has length `len`.
pub open spec fn genomes_have_len<I: Individual>(population: Seq<I>, len: nat) -> bool {
    forall|i: int| 0 <= i < population.len() ==> (#[trigger] population[i]).genome().len() == len
}

/// Breeds each new generation with one selection, one crossover and one
/// mutation method, fixed for its lifetime.
pub struct GeneticAlgorithm<S, C, M> {
    pub selection: S,
    pub crossover: C,
    pub mutation: M,
}

impl<S: SelectionMethod, C: CrossoverMethod, M: MutationMethod> GeneticAlgorithm<S, C, M> {
    pub fn new(selection: S, crossover: C, mutation: M) -> (r: Self)
        ensures
            r.selection == selection,
            r.crossover == crossover,
            r.mutation == mutation,
    {
        GeneticAlgorithm { selection, crossover, mutation }
    }

    /// Whether `child` may be bred from `population`: two chosen parents
    /// crossed, then mutated.
    pub open spec fn may_breed<I: Individual>(&self, population: Seq<I>, child: Seq<i32>) -> bool {
        exists|i: int, j: int, mid: Seq<i32>|
            #![trigger self.crossover.may_cross(population[i].genome(), population[j].genome(), mid), self.mutation.may_mutate(mid, child)]
            0 <= i < population.len() && 0 <= j < population.len()
                && self.selection.may_choose(fitness_seq(population), i)
                && self.selection.may_choose(fitness_seq(population), j)
                && self.crossover.may_cross(population[i].genome(), population[j].genome(), mid)
                && self.mutation.may_mutate(mid, child)
    }

    /// Replaces a population by as many offspring, each bred from two
    /// selected parents and not yet scored, and gives the fitness statistics
    /// of the population it was given. An empty population gives `None`.
    pub fn evolve<I: Individual>(&self, rng: &mut ChaCha8Rng, population: &Vec<I>) -> (r: Option<(Vec<I>, FitnessStats)>)
        requires
            population@.len() > 0 ==> self.selection.admits(population@.len()),
            population@.len() > 0 ==> genomes_have_len(population@, population@[0].genome().len()),
        ensures
            population@.len() == 0 <==> r is None,
            r matches Some((offspring, stats)) ==> {
                &&& offspring@.len() == population@.len()
                &&& stats == stats_of(fitness_seq(population@))
                &&& genomes_have_len(offspring@, population@[0].genome().len())
                &&& forall|k: int| 0 <= k < offspring@.len() ==> (#[trigger] offspring@[k]).fitness_value() == 0
                &&& forall|k: int| 0 <= k < offspring@.len() ==> self.may_breed(population@, (#[trigger] offspring@[k]).genome())
            },
    {
        if population.len() == 0 {
            return None;
        }
        let f = fitnesses(population);
        let stats = compute_stats(&f);
        let ghost len = population@[0].genome().len();
        let mut offspring: Vec<I> = Vec::new();
        let mut n: usize = 0;
        while n < population.len()
            invariant
                n <= population@.len(),
                population@.len() > 0,
                self.selection.admits(population@.len()),
                genomes_have_len(population@, len),
                len == population@[0].genome().len(),
                offspring@.len() == n,
                genomes_have_len(offspring@, len),
                forall|k: int| 0 <= k < offspring@.len() ==> (#[trigger] offspring@[k]).fitness_value() == 0,
                forall|k: int| 0 <= k < offspring@.len() ==> self.may_breed(population@, (#[trigger] offspring@[k]).genome()),
            decreases population@.len() - n,
        {
            let i = self.selection.select(rng, population);
            let j = self.selection.select(rng, population);
            let a = population[i].chromosome();
            let b = population[j].chromosome();
            let mut child: Chromosome = self.crossover.crossover(rng, a, b);
            let ghost mid = child@;
            self.mutation.mutate(rng, &mut child);
            let ghost genome = child@;
            let individual = I::create(child);
            proof {
                assert(self.crossover.may_cross(population@[i as int].genome(), population@[j as int].genome(), mid));
                assert(self.mutation.may_mutate(mid, genome));
                assert(self.may_breed(population@, individual.genome()));
            }
            offspring.push(individual);
            n = n + 1;
        }
        Some((offspring, stats))
    }
}

/// Evolution keeps the population's size and reports a mean fitness that
/// lies between the least and the greatest.
pub proof fn lemma_evolve_keeps_size_and_orders_stats<I: Individual>(
    population: Seq<I>,
    offspring: Seq<I>,
    stats: FitnessStats,
)
    requires
        offspring.len() == population.len(),
        stats == stats_of(fitness_seq(population)),
    ensures
        offspring.len() == population.len(),
        stats.min_fitness <= stats.avg_fitness <= stats.max_fitness,
{
    lemma_stats_ordered(fitness_seq(population));
}

} // verus!
