use lib_simulation::selection::{rank_weights, MAX_RANKED_POPULATION};
use lib_simulation::statistics::compute_stats;
use lib_simulation::{
    Chromosome, CrossoverMethod, FitnessStats, GaussianMutation, GeneticAlgorithm, Individual,
    MutationMethod, Predator, PredatorIndividual, RankBasedSelection, RouletteWheelSelection,
    SelectionMethod, UniformCrossover, Brain, Eye, Point, Rgba,
};
use lib_simulation::brain::weight_count_of;
use rand::SeedableRng;
use rand_chacha::ChaCha8Rng;
use std::collections::BTreeMap;

fn population_with_satiation(satiation: &[u32]) -> Vec<PredatorIndividual> {
    satiation
        .iter()
        .map(|&s| {
            let brain = Brain::from_chromosome(Chromosome::from_genes(vec![0; weight_count_of(9)]), 9);
            let p = Predator {
                position: Point { x: 0, y: 0 },
                rotation: 0,
                speed: 1100,
                eye: Eye::default(),
                brain,
                satiation: s,
                color: Rgba { r: 255, g: 90, b: 90, a: 255 },
                alive: true,
            };
            PredatorIndividual::from_predator(&p)
        })
        .collect()
}

#[test]
fn rank_based_selection() {
    let mut rng = ChaCha8Rng::from_seed(Default::default());
    // fitness is one more than satiation: 2, 1, 4, 3
    let population = population_with_satiation(&[1, 0, 3, 2]);
    let mut actual_histogram: BTreeMap<u64, u32> = BTreeMap::new();
    for _ in 0..1000 {
        let i = RankBasedSelection.select(&mut rng, &population);
        *actual_histogram.entry(population[i].fitness()).or_insert(0) += 1;
    }
    let expected_histogram = BTreeMap::from_iter([(1, 75), (2, 137), (3, 255), (4, 533)]);
    assert_eq!(actual_histogram, expected_histogram);
}

#[test]
fn rank_weights_double_with_rank() {
    assert_eq!(rank_weights(&vec![2u64, 1, 4, 3]), vec![4u128, 2, 16, 8]);
}

#[test]
fn rank_ties_share_the_first_rank() {
    assert_eq!(rank_weights(&vec![5u64, 5, 1]), vec![4u128, 4, 2]);
    assert_eq!(rank_weights(&vec![7u64, 7, 7]), vec![2u128, 2, 2]);
    assert_eq!(MAX_RANKED_POPULATION, 127);
}

#[test]
fn roulette_never_picks_zero_fitness_while_some_is_positive() {
    let mut rng = ChaCha8Rng::seed_from_u64(4);
    // satiation cannot make fitness zero, so offspring (fitness zero) stand in
    let mut population = population_with_satiation(&[4]);
    population.push(PredatorIndividual::create(Chromosome::from_genes(vec![0; weight_count_of(9)])));
    for _ in 0..200 {
        assert_eq!(RouletteWheelSelection.select(&mut rng, &population), 0);
    }
}

#[test]
fn roulette_is_uniform_when_all_fitness_is_zero() {
    let mut rng = ChaCha8Rng::seed_from_u64(6);
    let genes = vec![0; weight_count_of(9)];
    let population: Vec<PredatorIndividual> =
        (0..3).map(|_| PredatorIndividual::create(Chromosome::from_genes(genes.clone()))).collect();
    let mut counts = [0u32; 3];
    for _ in 0..3000 {
        counts[RouletteWheelSelection.select(&mut rng, &population)] += 1;
    }
    for c in counts {
        assert!(c > 800 && c < 1200, "{counts:?}");
    }
}

#[test]
fn roulette_selection_converges_to_fitness_shares() {
    let mut rng = ChaCha8Rng::seed_from_u64(7);
    // fitness 1, 2, 3, 4
    let population = population_with_satiation(&[0, 1, 2, 3]);
    let mut counts = [0u32; 4];
    for _ in 0..4000 {
        counts[RouletteWheelSelection.select(&mut rng, &population)] += 1;
    }
    let expected = [400.0f64, 800.0, 1200.0, 1600.0];
    for k in 0..4 {
        let c = counts[k] as f64;
        assert!((c - expected[k]).abs() < expected[k] * 0.2, "{counts:?}");
    }
}

#[test]
fn uniform_crossover_follows_the_coins() {
    let a = Chromosome::from_genes(vec![1, 2, 3, 4]);
    let b = Chromosome::from_genes(vec![-1, -2, -3, -4]);
    let child = UniformCrossover::cross(&a, &b, &vec![true, false, false, true]);
    assert_eq!(child.into_genes(), vec![1, -2, -3, 4]);
}

#[test]
fn uniform_crossover_takes_each_gene_from_a_parent() {
    let mut rng = ChaCha8Rng::seed_from_u64(3);
    let a = Chromosome::from_genes((0..1000).collect());
    let b = Chromosome::from_genes((0..1000).map(|x| -x - 1).collect());
    let child = UniformCrossover.crossover(&mut rng, &a, &b);
    assert_eq!(child.len(), 1000);
    let mut from_a = 0;
    for i in 0..1000 {
        let g = child.get(i);
        assert!(g == a.get(i) || g == b.get(i));
        if g == a.get(i) {
            from_a += 1;
        }
    }
    assert!(from_a > 430 && from_a < 570, "{from_a}");
}

#[test]
fn mutation_with_zero_chance_changes_nothing() {
    let mut rng = ChaCha8Rng::seed_from_u64(11);
    let genes: Vec<i32> = (0..500).map(|x| x * 3 - 700).collect();
    let mut c = Chromosome::from_genes(genes.clone());
    GaussianMutation::new(0, 300).mutate(&mut rng, &mut c);
    assert_eq!(c.into_genes(), genes);
}

#[test]
fn mutation_with_full_chance_stays_within_the_coefficient() {
    let mut rng = ChaCha8Rng::seed_from_u64(12);
    let genes: Vec<i32> = (0..500).map(|x| x * 3 - 700).collect();
    let mut c = Chromosome::from_genes(genes.clone());
    GaussianMutation::new(1_000_000, 5).mutate(&mut rng, &mut c);
    let after = c.into_genes();
    let mut changed = 0;
    for (x, y) in genes.iter().zip(after.iter()) {
        assert!((x - y).abs() <= 5);
        if x != y {
            changed += 1;
        }
    }
    assert!(changed > 400);
}

#[test]
fn mutation_fraction_converges_to_the_chance() {
    let mut rng = ChaCha8Rng::seed_from_u64(13);
    let mut c = Chromosome::from_genes(vec![0; 10_000]);
    GaussianMutation::new(250_000, 1000).mutate(&mut rng, &mut c);
    let changed = c.into_genes().iter().filter(|&&g| g != 0).count();
    assert!(changed > 2250 && changed < 2750, "{changed}");
}

#[test]
fn mutate_gene_adds_the_delta_below_the_chance() {
    let m = GaussianMutation::new(10, 5);
    assert_eq!(m.mutate_gene(7, 3, -5), 2);
    assert_eq!(m.mutate_gene(7, 10, -5), 7);
    assert_eq!(m.mutate_gene(i32::MAX, 0, 5), i32::MAX);
    assert_eq!(m.mutate_gene(i32::MIN, 0, -5), i32::MIN);
}

#[test]
fn statistics_of_fitness_values() {
    assert_eq!(
        compute_stats(&vec![1, 2, 4]),
        FitnessStats { min_fitness: 1, max_fitness: 4, avg_fitness: 2 }
    );
    assert_eq!(
        compute_stats(&vec![]),
        FitnessStats { min_fitness: 0, max_fitness: 0, avg_fitness: 0 }
    );
    assert_eq!(
        compute_stats(&vec![u64::MAX, u64::MAX]),
        FitnessStats { min_fitness: u64::MAX, max_fitness: u64::MAX, avg_fitness: u64::MAX }
    );
}

#[test]
fn evolve_keeps_the_population_size() {
    let mut rng = ChaCha8Rng::seed_from_u64(21);
    let population = population_with_satiation(&[0, 5, 2, 9, 1, 1, 3]);
    let ga = GeneticAlgorithm::new(
        RouletteWheelSelection,
        UniformCrossover,
        GaussianMutation::new(10_000, 300),
    );
    let (offspring, stats) = ga.evolve(&mut rng, &population).unwrap();
    assert_eq!(offspring.len(), population.len());
    assert_eq!(stats, FitnessStats { min_fitness: 1, max_fitness: 10, avg_fitness: 4 });
    assert!(stats.min_fitness <= stats.avg_fitness && stats.avg_fitness <= stats.max_fitness);
    for child in &offspring {
        assert_eq!(child.fitness(), 0);
        assert_eq!(child.chromosome().len(), population[0].chromosome().len());
    }
}

#[test]
fn evolve_on_an_empty_population_fails() {
    let mut rng = ChaCha8Rng::seed_from_u64(22);
    let ga = GeneticAlgorithm::new(
        RankBasedSelection,
        UniformCrossover,
        GaussianMutation::new(10_000, 300),
    );
    let empty: Vec<PredatorIndividual> = Vec::new();
    assert!(ga.evolve(&mut rng, &empty).is_none());
}

#[test]
fn chromosome_bytes_are_little_endian() {
    let c = Chromosome::from_genes(vec![1, -1, 256]);
    assert_eq!(c.to_bytes(), vec![1, 0, 0, 0, 255, 255, 255, 255, 0, 1, 0, 0]);
    assert_eq!(c.len(), 3);
    assert_eq!(c.get(1), -1);
}

#[test]
fn rank_selection_takes_the_largest_population() {
    let mut rng = ChaCha8Rng::seed_from_u64(8);
    let satiation: Vec<u32> = (0..127).collect();
    let population = population_with_satiation(&satiation);
    let weights = rank_weights(&population.iter().map(|p| p.fitness()).collect());
    assert_eq!(weights[126], 1u128 << 127);
    assert_eq!(weights.iter().sum::<u128>(), u128::MAX - 1);
    let mut top = 0;
    for _ in 0..100 {
        if RankBasedSelection.select(&mut rng, &population) == 126 {
            top += 1;
        }
    }
    assert!(top > 30, "{top}");
}
