//! A predator as the genetic algorithm sees it.
use crate::brain::weight_count;
use crate::chromosome::Chromosome;
use crate::individual::Individual;
use crate::world::Predator;
use rand_chacha::ChaCha8Rng;
use vstd::prelude::*;

verus! {

/// A predator's genome with its fitness: one more than its satiation.
pub struct PredatorIndividual {
    fitness: u64,
    chromosome: Chromosome,
}

impl PredatorIndividual {
    pub fn from_predator(predator: &Predator) -> (r: Self)
        ensures
            r.fitness_value() == 1 + predator.satiation,
            r.genome() == predator.brain.genome(),
    {
        PredatorIndividual { fitness: 1 + predator.satiation as u64, chromosome: predator.as_chromosome() }
    }

    /// A newborn predator with this genome.
    pub fn into_predator(self, rng: &mut ChaCha8Rng) -> (r: Predator)
        requires
            self.genome().len() == weight_count(crate::world::PREDATOR_EYE_CELLS as int),
        ensures
            r.newborn(),
            r.brain.genome() == self.genome(),
    {
        Predator::from_chromosome(self.chromosome, rng)
    }
}

impl Individual for PredatorIndividual {
    closed spec fn fitness_value(&self) -> u64 {
        self.fitness
    }

    closed spec fn genome(&self) -> Seq<i32> {
        self.chromosome@
    }

    fn create(chromosome: Chromosome) -> (r: Self) {
        PredatorIndividual { fitness: 0, chromosome }
    }

    fn chromosome(&self) -> (r: &Chromosome) {
        &self.chromosome
    }

    fn fitness(&self) -> (r: u64) {
        self.fitness
    }
}

} // verus!
