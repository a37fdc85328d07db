use lib_simulation::geometry::WORLD_SIZE;
use lib_simulation::{Rgba, Simulation, Statistics, World};
use rand::SeedableRng;
use rand_chacha::ChaCha8Rng;

fn snapshot(world: &World) -> Vec<(i64, i64, u32, bool)> {
    let mut out = Vec::new();
    for a in world.animals() {
        out.push((a.position().x, a.position().y, a.rotation(), a.alive));
    }
    for p in world.predators() {
        out.push((p.position().x, p.position().y, p.rotation(), p.alive));
    }
    for f in world.foods() {
        out.push((f.position().x, f.position().y, 0, true));
    }
    out
}

#[test]
fn a_fresh_simulation_has_full_populations() {
    let mut rng = ChaCha8Rng::seed_from_u64(1);
    let sim = Simulation::random(&mut rng);
    assert_eq!(sim.world().animals().len(), 40);
    assert_eq!(sim.world().predators().len(), 6);
    assert_eq!(sim.world().foods().len(), 60);
    assert_eq!(sim.age(), 0);
    assert_eq!(sim.generation(), 0);
    for p in sim.world().predators() {
        assert_eq!(p.color(), Rgba { r: 255, g: 90, b: 90, a: 255 });
        assert!(p.alive);
    }
    for a in sim.world().animals() {
        assert!(a.alive);
        assert_eq!(a.color(), a.brain.color());
    }
}

#[test]
fn steps_keep_everything_on_the_torus() {
    let mut rng = ChaCha8Rng::seed_from_u64(2);
    let mut sim = Simulation::random(&mut rng);
    for n in 1..=200usize {
        assert!(sim.step(&mut rng).is_none());
        assert_eq!(sim.age(), n);
    }
    for (x, y, r, _) in snapshot(sim.world()) {
        assert!(x >= 0 && x < WORLD_SIZE && y >= 0 && y < WORLD_SIZE);
        assert!(r < 72);
    }
}

#[test]
fn same_seed_same_simulation() {
    let mut rng_a = ChaCha8Rng::seed_from_u64(99);
    let mut rng_b = ChaCha8Rng::seed_from_u64(99);
    let mut a = Simulation::random(&mut rng_a);
    let mut b = Simulation::random(&mut rng_b);
    assert_eq!(snapshot(a.world()), snapshot(b.world()));
    for _ in 0..300 {
        let sa: Option<Statistics> = a.step(&mut rng_a);
        let sb: Option<Statistics> = b.step(&mut rng_b);
        assert_eq!(sa, sb);
        assert_eq!(snapshot(a.world()), snapshot(b.world()));
    }
}

#[test]
fn one_generation_from_seed_42() {
    let mut rng = ChaCha8Rng::seed_from_u64(42);
    let mut sim = Simulation::random(&mut rng);
    let stats = sim.fast_forward(&mut rng);
    assert_eq!(stats.generation, 0);
    assert!(stats.num_dead_prey <= 40);
    assert!(stats.num_dead_predators <= 6);
    assert!(stats.prey_ga.min_fitness <= stats.prey_ga.max_fitness);
    assert!(stats.predator_ga.min_fitness <= stats.predator_ga.max_fitness);
    assert!(stats.predator_ga.min_fitness >= 1);
    assert_eq!(sim.generation(), 1);
    assert_eq!(sim.age(), 0);
    let prey = sim.world().animals().len();
    if stats.num_dead_prey == 40 {
        assert_eq!(prey, 0);
        assert_eq!(stats.prey_ga.max_fitness, 0);
    } else {
        assert_eq!(prey, 40);
    }
    assert_eq!(sim.world().predators().len(), 6 - stats.num_dead_predators as usize);
    for a in sim.world().animals() {
        assert!(a.alive);
        assert_eq!(a.satiation(), 0);
    }
}

#[test]
fn a_generation_ends_after_its_length() {
    let mut rng = ChaCha8Rng::seed_from_u64(5);
    let mut sim = Simulation::random(&mut rng);
    let mut ticks = 0;
    loop {
        ticks += 1;
        if let Some(stats) = sim.step(&mut rng) {
            assert_eq!(stats.generation, 0);
            break;
        }
    }
    assert_eq!(ticks, 2501);
    let second = sim.fast_forward(&mut rng);
    assert_eq!(second.generation, 1);
}
