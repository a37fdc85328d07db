//! A prey animal as the genetic algorithm sees it.
use crate::brain::weight_count;
use crate::chromosome::Chromosome;
use crate::individual::Individual;
use crate::world::Animal;
use rand_chacha::ChaCha8Rng;
use vstd::prelude::*;

verus! {

/// A prey animal's genome with its fitness: one more than its satiation.
pub struct AnimalIndividual {
    fitness: u64,
    chromosome: Chromosome,
}

impl AnimalIndividual {
    pub fn from_animal(animal: &Animal) -> (r: Self)
        ensures
            r.fitness_value() == 1 + animal.satiation,
            r.genome() == animal.brain.genome(),
    {
        AnimalIndividual { fitness: 1 + animal.satiation as u64, chromosome: animal.as_chromosome() }
    }

    /// A newborn prey animal with this genome.
    pub fn into_animal(self, rng: &mut ChaCha8Rng) -> (r: Animal)
        requires
            self.genome().len() == weight_count(2 * crate::world::PREY_EYE_CELLS),
        ensures
            r.newborn(),
            r.brain.genome() == self.genome(),
    {
        Animal::from_chromosome(self.chromosome, rng)
    }
}

impl Individual for AnimalIndividual {
    closed spec fn fitness_value(&self) -> u64 {
        self.fitness
    }

    closed spec fn genome(&self) -> Seq<i32> {
        self.chromosome@
    }

    fn create(chromosome: Chromosome) -> (r: Self) {
        AnimalIndividual { fitness: 0, chromosome }
    }

    fn chromosome(&self) -> (r: &Chromosome) {
        &self.chromosome
    }

    fn fitness(&self) -> (r: u64) {
        self.fitness
    }
}

} // verus!
