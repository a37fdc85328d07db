//! What the genetic algorithm breeds: a chromosome with a fitness score.
use crate::chromosome::Chromosome;
use vstd::prelude::*;

verus! {

/// A member of a population: a genome and how well it did.
pub trait Individual: Sized {
    /// The fitness score.
    spec fn fitness_value(&self) -> u64;

    /// The genes.
    spec fn genome(&self) -> Seq<i32>;

    /// A fresh individual bred from `chromosome`, not yet scored.
    fn create(chromosome: Chromosome) -> (r: Self)
        ensures
            r.fitness_value() == 0,
            r.genome() == chromosome@,
    ;

    fn chromosome(&self) -> (r: &Chromosome)
        ensures
            r@ == self.genome(),
    ;

    fn fitness(&self) -> (r: u64)
        ensures
            r == self.fitness_value(),
    ;
}

/// The fitness of each member, in order.
pub open spec fn fitness_seq<I: Individual>(population: Seq<I>) -> Seq<u64> {
    Seq::new(population.len(), |i: int| population[i].fitness_value())
}

/// Collects the fitness of each member, in order.
pub fn fitnesses<I: Individual>(population: &Vec<I>) -> (r: Vec<u64>)
    ensures
        r@ == fitness_seq(population@),
{
    let mut out: Vec<u64> = Vec::new();
    let mut i: usize = 0;
    while i < population.len()
        invariant
            i <= population@.len(),
            out@ =~= fitness_seq(population@).subrange(0, i as int),
        decreases population@.len() - i,
    {
        out.push(population[i].fitness());
        i = i + 1;
    }
    out
}

} // verus!
