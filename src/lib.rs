//! An evolutionary simulation of prey and predators whose neural-network
//! brains are bred by a genetic algorithm.
//!
//! All quantities are integers: positions and speeds are fixed-point values
//! on a unit torus, genes are fixed-point weights, and fitness is a count.

pub mod animal_individual;
pub mod brain;
pub mod chromosome;
pub mod color;
pub mod crossover;
pub mod eye;
pub mod genetic_algorithm;
pub mod geometry;
pub mod individual;
pub mod mutation;
pub mod predator_individual;
pub mod rng;
pub mod selection;
pub mod simulation;
pub mod statistics;
pub mod world;

pub use crate::animal_individual::AnimalIndividual;
pub use crate::brain::Brain;
pub use crate::chromosome::Chromosome;
pub use crate::color::{Rgba, hsv_to_rgb, rgba_from_bytes};
pub use crate::crossover::{CrossoverMethod, UniformCrossover};
pub use crate::eye::Eye;
pub use crate::genetic_algorithm::GeneticAlgorithm;
pub use crate::geometry::Point;
pub use crate::individual::Individual;
pub use crate::mutation::{GaussianMutation, MutationMethod};
pub use crate::predator_individual::PredatorIndividual;
pub use crate::selection::{RankBasedSelection, RouletteWheelSelection, SelectionMethod};
pub use crate::simulation::{Simulation, Statistics};
pub use crate::statistics::FitnessStats;
pub use crate::world::{Animal, Food, Predator, World};
