//! The tick-by-tick life of a world and its evolution between generations.
use crate::animal_individual::AnimalIndividual;
use crate::brain::{ACTIVATION_CAP, inputs_in_range, propagate_spec};
use crate::crossover::{CrossoverMethod, UniformCrossover};
use crate::eye::FULL_ENERGY;
use crate::genetic_algorithm::{GeneticAlgorithm, genomes_have_len};
use crate::geometry::{HEADING_STEPS, Point, advance, advance_spec, dist_sq, turn};
use crate::individual::{Individual, fitness_seq};
use crate::mutation::{GaussianMutation, MutationMethod, mutation_by, mutation_of};
use crate::predator_individual::PredatorIndividual;
use crate::selection::{RouletteWheelSelection, SelectionMethod};
use crate::statistics::{FitnessStats, lemma_stats_ordered, stats_of};
use crate::world::{
    Animal, Food, Predator, World, animals_wf, dead_animals, dead_predators, foods_wf, predators_wf,
    random_point, within, living_animals, living_predators, lemma_living_animals, lemma_living_predators, world_wf, FOOD_COUNT, PREDATOR_COUNT, PREDATOR_SPEED_MAX, PREDATOR_SPEED_MIN, PREY_COUNT,
    PREY_SPEED_MAX, PREY_SPEED_MIN,
};
use rand_chacha::ChaCha8Rng;
use vstd::arithmetic::div_mod::{lemma_mod_bound, lemma_small_mod};
use vstd::prelude::*;

verus! {

/// Ticks in a generation.
pub const GENERATION_LENGTH: usize = 2500;

/// A prey eats food within this distance.
pub const EAT_RADIUS: i64 = 10_000;

/// A predator catches prey within this distance.
pub const KILL_RADIUS: i64 = 12_000;

/// Satiation a predator gains for a catch.
pub const KILL_REWARD: u32 = 3;

/// Largest change of speed per tick, in world units.
pub const PREY_SPEED_ACCEL: i64 = 200_000;
pub const PREDATOR_SPEED_ACCEL: i64 = 250_000;

/// Largest turn per tick, in thousandths of a radian.
pub const PREY_ROTATION_ACCEL: i64 = 523;
pub const PREDATOR_ROTATION_ACCEL: i64 = 628;

/// A heading step (five degrees) in thousandths of a radian, rounded down.
pub const STEP_MILLIRADIANS: i64 = 87;

/// World units in one thousandth of the world's width: the unit of a
/// network's speed output.
pub const OUTPUT_TO_SPEED: i64 = 1000;

/// Prey see predators this much more strongly than food, as a fraction.
pub const VISION_GAIN_NUM: u64 = 5;
pub const VISION_GAIN_DEN: u64 = 2;

/// Mutation of both species: a chance of one in a hundred per gene, by at
/// most three tenths.
pub const MUTATION_CHANCE: u32 = 10_000;
pub const MUTATION_COEFF: i32 = 300;

pub open spec fn clamp_spec(x: int, lo: int, hi: int) -> int {
    if x < lo {
        lo
    } else if x > hi {
        hi
    } else {
        x
    }
}

/// The speed after a network's speed output: the output, in thousandths of
/// the world's width, held within `accel` either way, is added, and the sum
/// held within `[lo, hi]`.
pub open spec fn steer_speed_spec(speed: int, out: int, accel: int, lo: int, hi: int) -> int {
    clamp_spec(speed + clamp_spec(out * OUTPUT_TO_SPEED, -accel, accel), lo, hi)
}

/// The heading steps of a network's turn output, in thousandths of a
/// radian, held within `accel` either way.
pub open spec fn turn_steps_spec(out: int, accel: int) -> int {
    clamp_spec(out, -accel, accel) / STEP_MILLIRADIANS as int
}

pub fn steer_speed(speed: i64, out: i64, accel: i64, lo: i64, hi: i64) -> (r: i64)
    requires
        0 <= out <= ACTIVATION_CAP,
        0 <= speed <= 1_000_000,
        0 <= accel <= 1_000_000,
        lo <= hi,
    ensures
        r == steer_speed_spec(speed as int, out as int, accel as int, lo as int, hi as int),
        lo <= r <= hi,
{
    let raw = out * OUTPUT_TO_SPEED;
    let d = if raw < -accel {
        -accel
    } else if raw > accel {
        accel
    } else {
        raw
    };
    let s = speed + d;
    if s < lo {
        lo
    } else if s > hi {
        hi
    } else {
        s
    }
}

pub fn turn_steps(out: i64, accel: i64) -> (r: i64)
    requires
        0 <= out <= ACTIVATION_CAP,
        0 <= accel <= 1000,
    ensures
        r == turn_steps_spec(out as int, accel as int),
        0 <= r <= 12,
{
    let c = if out > accel {
        accel
    } else {
        out
    };
    c / STEP_MILLIRADIANS
}

/// Whether a living animal has food `f` within eating reach.
pub open spec fn eats(a: Animal, f: Food) -> bool {
    a.alive && within(a.position, f.position, EAT_RADIUS as int)
}

/// How many of the first `n` pellets animal `a` has within eating reach.
pub open spec fn eat_count(a: Animal, foods: Seq<Food>, n: int) -> nat
    decreases n,
{
    if n <= 0 {
        0
    } else {
        eat_count(a, foods, n - 1) + if eats(a, foods[n - 1]) { 1nat } else { 0nat }
    }
}

/// Satiation `s` grown by `n` meals of one point, held at `u32::MAX`.
pub open spec fn fed(s: u32, n: nat) -> u32 {
    if s + n > u32::MAX {
        u32::MAX
    } else {
        (s + n) as u32
    }
}

/// `a` is `b` but for its satiation.
pub open spec fn animal_but_satiation(a: Animal, b: Animal) -> bool {
    &&& a.position == b.position
    &&& a.rotation == b.rotation
    &&& a.speed == b.speed
    &&& a.eye == b.eye
    &&& a.brain == b.brain
    &&& a.color == b.color
    &&& a.alive == b.alive
}

/// `a` is `b` but for whether it lives and its speed.
pub open spec fn animal_but_life(a: Animal, b: Animal) -> bool {
    &&& a.position == b.position
    &&& a.rotation == b.rotation
    &&& a.eye == b.eye
    &&& a.brain == b.brain
    &&& a.satiation == b.satiation
    &&& a.color == b.color
}

/// `p` is `q` but for its satiation.
pub open spec fn predator_but_satiation(p: Predator, q: Predator) -> bool {
    &&& p.position == q.position
    &&& p.rotation == q.rotation
    &&& p.speed == q.speed
    &&& p.eye == q.eye
    &&& p.brain == q.brain
    &&& p.color == q.color
    &&& p.alive == q.alive
}

/// One prey eats every pellet within reach; each eaten pellet moves to a
/// random place, and the prey's satiation grows by one per pellet.
fn feed(animal: &mut Animal, foods: &mut Vec<Food>, rng: &mut ChaCha8Rng)
    requires
        old(animal).wf(),
        foods_wf(old(foods)@),
    ensures
        animal_but_satiation(*final(animal), *old(animal)),
        final(animal).satiation == fed(old(animal).satiation, eat_count(*old(animal), old(foods)@, old(foods)@.len() as int)),
        final(foods)@.len() == old(foods)@.len(),
        foods_wf(final(foods)@),
        forall|j: int| 0 <= j < old(foods)@.len() && !eats(*old(animal), old(foods)@[j]) ==> #[trigger] final(foods)@[j] == old(foods)@[j],
{
    let ghost a0 = *animal;
    let ghost f0 = foods@;
    let mut j: usize = 0;
    while j < foods.len()
        invariant
            a0.wf(),
            animal_but_satiation(*animal, a0),
            animal.satiation == fed(a0.satiation, eat_count(a0, f0, j as int)),
            foods@.len() == f0.len(),
            foods_wf(foods@),
            j <= foods@.len(),
            forall|k: int| j <= k < f0.len() ==> #[trigger] foods@[k] == f0[k],
            forall|k: int| 0 <= k < j && !eats(a0, f0[k]) ==> #[trigger] foods@[k] == f0[k],
        decreases foods@.len() - j,
    {
        if animal.alive {
            let d = dist_sq(animal.position, foods[j].position);
            if d <= EAT_RADIUS * EAT_RADIUS {
                let s = animal.satiation;
                if s < u32::MAX {
                    animal.satiation = s + 1;
                }
                let p = random_point(rng);
                foods.set(j, Food { position: p });
            }
        }
        j = j + 1;
    }
}

/// Each living prey in turn eats every food pellet within reach, which then
/// moves to a random place. Where no living prey has food within reach,
/// nothing changes.
fn prey_food_collisions(animals: &mut Vec<Animal>, foods: &mut Vec<Food>, rng: &mut ChaCha8Rng)
    requires
        animals_wf(old(animals)@),
        foods_wf(old(foods)@),
    ensures
        animals_wf(final(animals)@),
        foods_wf(final(foods)@),
        final(animals)@.len() == old(animals)@.len(),
        final(foods)@.len() == old(foods)@.len(),
        forall|k: int| 0 <= k < final(animals)@.len() ==> {
            &&& animal_but_satiation(#[trigger] final(animals)@[k], old(animals)@[k])
            &&& final(animals)@[k].satiation >= old(animals)@[k].satiation
            &&& !old(animals)@[k].alive ==> final(animals)@[k] == old(animals)@[k]
        },
        (forall|k: int, j: int| 0 <= k < old(animals)@.len() && 0 <= j < old(foods)@.len()
            ==> !eats(#[trigger] old(animals)@[k], #[trigger] old(foods)@[j]))
            ==> final(animals)@ == old(animals)@ && final(foods)@ == old(foods)@,
{
    let ghost a0 = animals@;
    let ghost f0 = foods@;
    let ghost none_in_reach = forall|k: int, j: int| 0 <= k < a0.len() && 0 <= j < f0.len()
        ==> !eats(#[trigger] a0[k], #[trigger] f0[j]);
    let mut i: usize = 0;
    while i < animals.len()
        invariant
            animals_wf(animals@),
            foods_wf(foods@),
            animals@.len() == a0.len(),
            foods@.len() == f0.len(),
            i <= animals@.len(),
            forall|k: int| i <= k < a0.len() ==> #[trigger] animals@[k] == a0[k],
            forall|k: int| 0 <= k < i ==> {
                &&& animal_but_satiation(#[trigger] animals@[k], a0[k])
                &&& animals@[k].satiation >= a0[k].satiation
                &&& !a0[k].alive ==> animals@[k] == a0[k]
            },
            none_in_reach == (forall|k: int, j: int| 0 <= k < a0.len() && 0 <= j < f0.len()
                ==> !eats(#[trigger] a0[k], #[trigger] f0[j])),
            none_in_reach ==> animals@ == a0 && foods@ == f0,
        decreases animals@.len() - i,
    {
        if animals[i].alive {
            let ghost before = animals@[i as int];
            let ghost fb = foods@;
            feed(&mut animals[i], foods, rng);
            proof {
                if none_in_reach {
                    assert forall|n: int| 0 <= n <= fb.len() implies eat_count(before, fb, n) == 0 by {
                        lemma_eat_count_none(before, fb, n, i as int, a0, f0);
                    }
                    assert(animals@[i as int] == before);
                    assert(animals@ =~= a0);
                    assert forall|j: int| 0 <= j < fb.len() implies #[trigger] foods@[j] == fb[j] by {
                        assert(!eats(a0[i as int], f0[j]));
                    }
                    assert(foods@ =~= f0);
                }
            }
        }
        i = i + 1;
    }
}

proof fn lemma_eat_count_none(a: Animal, fs: Seq<Food>, n: int, i: int, a0: Seq<Animal>, f0: Seq<Food>)
    requires
        0 <= n <= fs.len(),
        0 <= i < a0.len(),
        a == a0[i],
        fs == f0,
        forall|k: int, j: int| 0 <= k < a0.len() && 0 <= j < f0.len() ==> !eats(#[trigger] a0[k], #[trigger] f0[j]),
    ensures
        eat_count(a, fs, n) == 0,
    decreases n,
{
    if n > 0 {
        lemma_eat_count_none(a, fs, n - 1, i, a0, f0);
        assert(!eats(a0[i], f0[n - 1]));
    }
}

/// Whether some living predator among the first `n` has `a` within reach.
pub open spec fn caught_within(ps: Seq<Predator>, a: Point, n: int) -> bool {
    exists|j: int| 0 <= j < n && ps[j].alive && #[trigger] within(ps[j].position, a, KILL_RADIUS as int)
}

/// Whether predator `i` catches prey `k`: the prey lives, is within the
/// predator's reach, and no living predator before it has caught it.
pub open spec fn catches(ps: Seq<Predator>, preys: Seq<Animal>, i: int, k: int) -> bool {
    &&& preys[k].alive
    &&& ps[i].alive
    &&& within(ps[i].position, preys[k].position, KILL_RADIUS as int)
    &&& !caught_within(ps, preys[k].position, i)
}

/// How many of the first `n` prey predator `i` catches.
pub open spec fn catch_count(ps: Seq<Predator>, preys: Seq<Animal>, i: int, n: int) -> nat
    decreases n,
{
    if n <= 0 {
        0
    } else {
        catch_count(ps, preys, i, n - 1) + if catches(ps, preys, i, n - 1) { 1nat } else { 0nat }
    }
}

/// Satiation `s` after `n` catches, each worth the reward unless that would
/// pass `u32::MAX`.
pub open spec fn rewarded(s: u32, n: nat) -> u32
    decreases n,
{
    if n == 0 {
        s
    } else {
        let t = rewarded(s, (n - 1) as nat);
        if t <= u32::MAX - KILL_REWARD {
            (t + KILL_REWARD) as u32
        } else {
            t
        }
    }
}

/// Prey `a` after the hunt, from `a0`: it dies and stops if `caught`.
pub open spec fn hunted(a0: Animal, a: Animal, caught: bool) -> bool {
    &&& animal_but_life(a, a0)
    &&& a.alive == (a0.alive && !caught)
    &&& a.alive ==> a.speed == a0.speed
    &&& !a.alive ==> a.speed == 0
}

proof fn lemma_caught_step(ps: Seq<Predator>, a: Point, i: int)
    requires
        0 <= i < ps.len(),
    ensures
        caught_within(ps, a, i + 1) == (caught_within(ps, a, i) || (ps[i].alive && within(ps[i].position, a, KILL_RADIUS as int))),
{
    if caught_within(ps, a, i + 1) {
        let j = choose|j: int| 0 <= j < i + 1 && ps[j].alive && #[trigger] within(ps[j].position, a, KILL_RADIUS as int);
        if j < i {
            assert(caught_within(ps, a, i));
        }
    }
    if caught_within(ps, a, i) {
        let j = choose|j: int| 0 <= j < i && ps[j].alive && #[trigger] within(ps[j].position, a, KILL_RADIUS as int);
        assert(0 <= j < i + 1 && ps[j].alive && within(ps[j].position, a, KILL_RADIUS as int));
    }
    if ps[i].alive && within(ps[i].position, a, KILL_RADIUS as int) {
        assert(caught_within(ps, a, i + 1));
    }
}

proof fn lemma_no_catches(ps: Seq<Predator>, preys: Seq<Animal>, i: int, n: int)
    requires
        0 <= i < ps.len(),
        !ps[i].alive,
    ensures
        catch_count(ps, preys, i, n) == 0,
    decreases n,
{
    if n > 0 {
        lemma_no_catches(ps, preys, i, n - 1);
    }
}

/// Each living predator in turn catches every living prey within reach:
/// the prey dies and stops, and the predator's satiation grows by the
/// reward per catch. Predators do not die.
fn predator_prey_collisions(predators: &mut Vec<Predator>, animals: &mut Vec<Animal>)
    requires
        animals_wf(old(animals)@),
        predators_wf(old(predators)@),
    ensures
        animals_wf(final(animals)@),
        predators_wf(final(predators)@),
        final(animals)@.len() == old(animals)@.len(),
        final(predators)@.len() == old(predators)@.len(),
        forall|k: int| 0 <= k < final(animals)@.len() ==> hunted(
            old(animals)@[k],
            #[trigger] final(animals)@[k],
            caught_within(old(predators)@, old(animals)@[k].position, old(predators)@.len() as int),
        ),
        forall|j: int| 0 <= j < final(predators)@.len() ==> {
            &&& predator_but_satiation(#[trigger] final(predators)@[j], old(predators)@[j])
            &&& final(predators)@[j].satiation == rewarded(
                old(predators)@[j].satiation,
                catch_count(old(predators)@, old(animals)@, j, old(animals)@.len() as int),
            )
        },
{
    let ghost a0 = animals@;
    let ghost p0 = predators@;
    let mut i: usize = 0;
    while i < predators.len()
        invariant
            animals_wf(animals@),
            predators_wf(predators@),
            animals_wf(a0),
            animals@.len() == a0.len(),
            predators@.len() == p0.len(),
            i <= predators@.len(),
            forall|k: int| 0 <= k < animals@.len() ==> hunted(a0[k], #[trigger] animals@[k], caught_within(p0, a0[k].position, i as int)),
            forall|j: int| 0 <= j < predators@.len() ==> {
                &&& predator_but_satiation(#[trigger] predators@[j], p0[j])
                &&& predators@[j].satiation == if j < i {
                    rewarded(p0[j].satiation, catch_count(p0, a0, j, a0.len() as int))
                } else {
                    p0[j].satiation
                }
            },
        decreases predators@.len() - i,
    {
        if predators[i].alive {
            let mut k: usize = 0;
            while k < animals.len()
                invariant
                    animals_wf(animals@),
                    predators_wf(predators@),
                    animals_wf(a0),
                    animals@.len() == a0.len(),
                    predators@.len() == p0.len(),
                    i < predators@.len(),
                    p0[i as int].alive,
                    k <= animals@.len(),
                    forall|m: int| 0 <= m < animals@.len() ==> hunted(
                        a0[m],
                        #[trigger] animals@[m],
                        caught_within(p0, a0[m].position, if m < k { i + 1 } else { i as int }),
                    ),
                    forall|j: int| 0 <= j < predators@.len() ==> {
                        &&& predator_but_satiation(#[trigger] predators@[j], p0[j])
                        &&& predators@[j].satiation == if j < i {
                            rewarded(p0[j].satiation, catch_count(p0, a0, j, a0.len() as int))
                        } else if j == i {
                            rewarded(p0[j].satiation, catch_count(p0, a0, j, k as int))
                        } else {
                            p0[j].satiation
                        }
                    },
                decreases animals@.len() - k,
            {
                proof {
                    lemma_caught_step(p0, a0[k as int].position, i as int);
                }
                if animals[k].alive {
                    let d = dist_sq(predators[i].position, animals[k].position);
                    if d <= KILL_RADIUS * KILL_RADIUS {
                        animals[k].alive = false;
                        animals[k].speed = 0;
                        let s = predators[i].satiation;
                        if s <= u32::MAX - KILL_REWARD {
                            predators[i].satiation = s + KILL_REWARD;
                        }
                    }
                }
                k = k + 1;
            }
        } else {
            proof {
                lemma_no_catches(p0, a0, i as int, a0.len() as int);
                assert forall|m: int| 0 <= m < a0.len() implies caught_within(p0, a0[m].position, i + 1)
                    == caught_within(p0, a0[m].position, i as int) by {
                    lemma_caught_step(p0, a0[m].position, i as int);
                }
            }
        }
        i = i + 1;
    }
}

/// Animal `b` is `a` moved by its speed along its heading if it lives,
/// and otherwise left as it was.
pub open spec fn animal_moved(a: Animal, b: Animal) -> bool {
    &&& b.position == if a.alive { advance_spec(a.position, a.rotation as int, a.speed as int) } else { a.position }
    &&& b.alive == a.alive
    &&& b.rotation == a.rotation
    &&& b.speed == a.speed
    &&& b.brain == a.brain
    &&& b.satiation == a.satiation
    &&& !a.alive ==> b == a
}

/// Predator `q` is `p` moved by its speed along its heading if it lives.
pub open spec fn predator_moved(p: Predator, q: Predator) -> bool {
    &&& q.position == if p.alive { advance_spec(p.position, p.rotation as int, p.speed as int) } else { p.position }
    &&& q.alive == p.alive
    &&& q.rotation == p.rotation
    &&& q.speed == p.speed
    &&& q.brain == p.brain
    &&& q.satiation == p.satiation
}

/// Each living creature moves along its heading by its speed, wrapping round
/// the torus; the dead stay where they are.
fn movements(animals: &mut Vec<Animal>, predators: &mut Vec<Predator>)
    requires
        animals_wf(old(animals)@),
        predators_wf(old(predators)@),
    ensures
        animals_wf(final(animals)@),
        predators_wf(final(predators)@),
        final(animals)@.len() == old(animals)@.len(),
        final(predators)@.len() == old(predators)@.len(),
        forall|k: int| 0 <= k < final(animals)@.len() ==> animal_moved(old(animals)@[k], #[trigger] final(animals)@[k]),
        forall|k: int| 0 <= k < final(predators)@.len() ==> predator_moved(old(predators)@[k], #[trigger] final(predators)@[k]),
{
    let ghost a0 = animals@;
    let ghost p0 = predators@;
    let mut i: usize = 0;
    while i < animals.len()
        invariant
            animals_wf(animals@),
            animals@.len() == a0.len(),
            i <= animals@.len(),
            forall|k: int| i <= k < animals@.len() ==> #[trigger] animals@[k] == a0[k],
            forall|k: int| 0 <= k < i ==> animal_moved(a0[k], #[trigger] animals@[k]),
        decreases animals@.len() - i,
    {
        if animals[i].alive {
            let p = advance(animals[i].position, animals[i].rotation, animals[i].speed);
            animals[i].position = p;
        }
        i = i + 1;
    }
    let mut i: usize = 0;
    while i < predators.len()
        invariant
            predators_wf(predators@),
            predators@.len() == p0.len(),
            i <= predators@.len(),
            forall|k: int| i <= k < predators@.len() ==> #[trigger] predators@[k] == p0[k],
            forall|k: int| 0 <= k < i ==> predator_moved(p0[k], #[trigger] predators@[k]),
        decreases predators@.len() - i,
    {
        if predators[i].alive {
            let p = advance(predators[i].position, predators[i].rotation, predators[i].speed);
            predators[i].position = p;
        }
        i = i + 1;
    }
}

/// The input a prey's brain gets: its food vision, then its predator
/// vision amplified by the gain.
pub open spec fn prey_input(a: Animal, foods: Seq<Point>, predators: Seq<Point>) -> Seq<i64> {
    let v1 = a.eye.vision_spec(a.position, a.rotation as int, foods);
    let v2 = a.eye.vision_spec(a.position, a.rotation as int, predators);
    Seq::new(v1.len(), |c: int| v1[c] as i64) + Seq::new(
        v2.len(),
        |c: int| (v2[c] * VISION_GAIN_NUM / VISION_GAIN_DEN as int) as i64,
    )
}

/// The input a predator's brain gets: its prey vision.
pub open spec fn predator_input(p: Predator, prey: Seq<Point>) -> Seq<i64> {
    let v = p.eye.vision_spec(p.position, p.rotation as int, prey);
    Seq::new(v.len(), |c: int| v[c] as i64)
}

/// The largest number of points that a brain's vision input may come from.
pub const MAX_SEEN: usize = 100_000;

pub open spec fn all_on_torus(s: Seq<Point>) -> bool {
    forall|k: int| 0 <= k < s.len() ==> (#[trigger] s[k]).on_torus()
}

fn food_positions(foods: &Vec<Food>) -> (r: Vec<Point>)
    requires
        foods_wf(foods@),
    ensures
        r@.len() == foods@.len(),
        forall|k: int| 0 <= k < r@.len() ==> #[trigger] r@[k] == foods@[k].position,
        all_on_torus(r@),
{
    let mut out: Vec<Point> = Vec::new();
    let mut i: usize = 0;
    while i < foods.len()
        invariant
            foods_wf(foods@),
            i <= foods@.len(),
            out@.len() == i,
            forall|k: int| 0 <= k < i ==> #[trigger] out@[k] == foods@[k].position,
        decreases foods@.len() - i,
    {
        out.push(foods[i].position);
        i = i + 1;
    }
    out
}

/// The positions of the living predators, in order.
pub open spec fn living_predator_points(s: Seq<Predator>) -> Seq<Point> {
    let live = living_predators(s, s.len() as int);
    Seq::new(live.len(), |m: int| live[m].position)
}

/// The positions of the living prey, in order.
pub open spec fn living_prey_points(s: Seq<Animal>) -> Seq<Point> {
    let live = living_animals(s, s.len() as int);
    Seq::new(live.len(), |m: int| live[m].position)
}

fn living_predator_positions(predators: &Vec<Predator>) -> (r: Vec<Point>)
    requires
        predators_wf(predators@),
    ensures
        r@ == living_predator_points(predators@),
        r@.len() <= predators@.len(),
        all_on_torus(r@),
{
    let mut out: Vec<Point> = Vec::new();
    let mut i: usize = 0;
    while i < predators.len()
        invariant
            predators_wf(predators@),
            i <= predators@.len(),
            out@ =~= Seq::new(
                living_predators(predators@, i as int).len(),
                |m: int| living_predators(predators@, i as int)[m].position,
            ),
        decreases predators@.len() - i,
    {
        proof {
            lemma_living_predators(predators@, i as int);
        }
        if predators[i].alive {
            out.push(predators[i].position);
        }
        i = i + 1;
    }
    proof {
        lemma_living_predators(predators@, predators@.len() as int);
    }
    out
}

fn living_prey_positions(animals: &Vec<Animal>) -> (r: Vec<Point>)
    requires
        animals_wf(animals@),
    ensures
        r@ == living_prey_points(animals@),
        r@.len() <= animals@.len(),
        all_on_torus(r@),
{
    let mut out: Vec<Point> = Vec::new();
    let mut i: usize = 0;
    while i < animals.len()
        invariant
            animals_wf(animals@),
            i <= animals@.len(),
            out@ =~= Seq::new(
                living_animals(animals@, i as int).len(),
                |m: int| living_animals(animals@, i as int)[m].position,
            ),
        decreases animals@.len() - i,
    {
        proof {
            lemma_living_animals(animals@, i as int);
        }
        if animals[i].alive {
            out.push(animals[i].position);
        }
        i = i + 1;
    }
    proof {
        lemma_living_animals(animals@, animals@.len() as int);
    }
    out
}

/// Animal `b` is `a` after its brain, fed `foods` and `predators`, set its
/// speed and heading; a dead animal is left as it was.
pub open spec fn prey_steered(a: Animal, b: Animal, foods: Seq<Point>, predators: Seq<Point>) -> bool {
    let out = propagate_spec(a.brain.genome(), prey_input(a, foods, predators));
    &&& b.alive == a.alive
    &&& b.position == a.position
    &&& b.brain == a.brain
    &&& b.satiation == a.satiation
    &&& a.alive ==> b.speed == steer_speed_spec(
        a.speed as int,
        out[0] as int,
        PREY_SPEED_ACCEL as int,
        PREY_SPEED_MIN as int,
        PREY_SPEED_MAX as int,
    )
    &&& a.alive ==> b.rotation == crate::geometry::turn_spec(
        a.rotation as int,
        turn_steps_spec(out[1] as int, PREY_ROTATION_ACCEL as int),
    )
    &&& !a.alive ==> b == a
}

/// Each living prey looks at the food and the living predators, and its
/// brain changes its speed and heading.
fn prey_brains(animals: &mut Vec<Animal>, foods: &Vec<Point>, predators: &Vec<Point>)
    requires
        animals_wf(old(animals)@),
        foods@.len() <= MAX_SEEN,
        predators@.len() <= MAX_SEEN,
        all_on_torus(foods@),
        all_on_torus(predators@),
    ensures
        animals_wf(final(animals)@),
        final(animals)@.len() == old(animals)@.len(),
        forall|k: int| 0 <= k < final(animals)@.len() ==> prey_steered(old(animals)@[k], #[trigger] final(animals)@[k], foods@, predators@),
{
    let ghost a0 = animals@;
    let mut i: usize = 0;
    while i < animals.len()
        invariant
            animals_wf(animals@),
            animals@.len() == a0.len(),
            i <= animals@.len(),
            foods@.len() <= MAX_SEEN,
            predators@.len() <= MAX_SEEN,
            all_on_torus(foods@),
            all_on_torus(predators@),
            forall|k: int| i <= k < animals@.len() ==> #[trigger] animals@[k] == a0[k],
            forall|k: int| 0 <= k < i ==> prey_steered(a0[k], #[trigger] animals@[k], foods@, predators@),
        decreases animals@.len() - i,
    {
        if animals[i].alive {
            let a = &animals[i];
            let v1 = a.eye.process_vision(a.position, a.rotation, foods);
            let v2 = a.eye.process_vision(a.position, a.rotation, predators);
            let mut input: Vec<i64> = Vec::new();
            let mut c: usize = 0;
            while c < v1.len()
                invariant
                    c <= v1@.len(),
                    v1@.len() == a.eye.cells_spec(),
                    foods@.len() <= MAX_SEEN,
                    forall|m: int| 0 <= m < v1@.len() ==> #[trigger] v1@[m] <= FULL_ENERGY * foods@.len(),
                    input@ =~= Seq::new(c as nat, |m: int| v1@[m] as i64),
                    inputs_in_range(input@),
                decreases v1@.len() - c,
            {
                input.push(v1[c] as i64);
                c = c + 1;
            }
            let ghost first = input@;
            let mut c: usize = 0;
            while c < v2.len()
                invariant
                    c <= v2@.len(),
                    v2@.len() == a.eye.cells_spec(),
                    predators@.len() <= MAX_SEEN,
                    forall|m: int| 0 <= m < v2@.len() ==> #[trigger] v2@[m] <= FULL_ENERGY * predators@.len(),
                    input@ =~= first + Seq::new(c as nat, |m: int| (v2@[m] * VISION_GAIN_NUM / VISION_GAIN_DEN as int) as i64),
                    inputs_in_range(first),
                    inputs_in_range(input@),
                decreases v2@.len() - c,
            {
                input.push((v2[c] * VISION_GAIN_NUM / VISION_GAIN_DEN) as i64);
                c = c + 1;
            }
            proof {
                assert(input@ =~= prey_input(*a, foods@, predators@));
            }
            let out = a.brain.propagate(&input);
            let speed = steer_speed(a.speed, out[0], PREY_SPEED_ACCEL, PREY_SPEED_MIN, PREY_SPEED_MAX);
            let steps = turn_steps(out[1], PREY_ROTATION_ACCEL);
            let rotation = turn(a.rotation, steps);
            animals[i].speed = speed;
            animals[i].rotation = rotation;
        }
        i = i + 1;
    }
}

/// Predator `q` is `p` after its brain, fed `prey`, set its speed and
/// heading; a dead predator is left as it was.
pub open spec fn predator_steered(p: Predator, q: Predator, prey: Seq<Point>) -> bool {
    let out = propagate_spec(p.brain.genome(), predator_input(p, prey));
    &&& q.alive == p.alive
    &&& q.position == p.position
    &&& q.brain == p.brain
    &&& q.satiation == p.satiation
    &&& p.alive ==> q.speed == steer_speed_spec(
        p.speed as int,
        out[0] as int,
        PREDATOR_SPEED_ACCEL as int,
        PREDATOR_SPEED_MIN as int,
        PREDATOR_SPEED_MAX as int,
    )
    &&& p.alive ==> q.rotation == crate::geometry::turn_spec(
        p.rotation as int,
        turn_steps_spec(out[1] as int, PREDATOR_ROTATION_ACCEL as int),
    )
    &&& !p.alive ==> q == p
}

/// Each living predator looks at the living prey, and its brain changes its
/// speed and heading.
fn predator_brains(predators: &mut Vec<Predator>, prey: &Vec<Point>)
    requires
        predators_wf(old(predators)@),
        prey@.len() <= MAX_SEEN,
        all_on_torus(prey@),
    ensures
        predators_wf(final(predators)@),
        final(predators)@.len() == old(predators)@.len(),
        forall|k: int| 0 <= k < final(predators)@.len() ==> predator_steered(old(predators)@[k], #[trigger] final(predators)@[k], prey@),
{
    let ghost p0 = predators@;
    let mut i: usize = 0;
    while i < predators.len()
        invariant
            predators_wf(predators@),
            predators@.len() == p0.len(),
            i <= predators@.len(),
            prey@.len() <= MAX_SEEN,
            all_on_torus(prey@),
            forall|k: int| i <= k < predators@.len() ==> #[trigger] predators@[k] == p0[k],
            forall|k: int| 0 <= k < i ==> predator_steered(p0[k], #[trigger] predators@[k], prey@),
        decreases predators@.len() - i,
    {
        if predators[i].alive {
            let p = &predators[i];
            let v = p.eye.process_vision(p.position, p.rotation, prey);
            let mut input: Vec<i64> = Vec::new();
            let mut c: usize = 0;
            while c < v.len()
                invariant
                    c <= v@.len(),
                    prey@.len() <= MAX_SEEN,
                    forall|m: int| 0 <= m < v@.len() ==> #[trigger] v@[m] <= FULL_ENERGY * prey@.len(),
                    input@ =~= Seq::new(c as nat, |m: int| v@[m] as i64),
                    inputs_in_range(input@),
                decreases v@.len() - c,
            {
                input.push(v[c] as i64);
                c = c + 1;
            }
            proof {
                assert(input@ =~= predator_input(*p, prey@));
            }
            let out = p.brain.propagate(&input);
            let speed = steer_speed(p.speed, out[0], PREDATOR_SPEED_ACCEL, PREDATOR_SPEED_MIN, PREDATOR_SPEED_MAX);
            let steps = turn_steps(out[1], PREDATOR_ROTATION_ACCEL);
            let rotation = turn(p.rotation, steps);
            predators[i].speed = speed;
            predators[i].rotation = rotation;
        }
        i = i + 1;
    }
}

/// What one generation came to: fitness statistics and deaths of each
/// species.
#[derive(Clone, Copy, Debug, PartialEq, Eq, Structural)]
pub struct Statistics {
    pub generation: usize,
    pub prey_ga: FitnessStats,
    pub predator_ga: FitnessStats,
    pub num_dead_prey: u32,
    pub num_dead_predators: u32,
}

pub open spec fn zero_stats() -> FitnessStats {
    FitnessStats { min_fitness: 0, max_fitness: 0, avg_fitness: 0 }
}

pub open spec fn stats_ordered(s: FitnessStats) -> bool {
    s.min_fitness <= s.avg_fitness <= s.max_fitness
}

/// Evolves a population whose genomes all have length `len`; an empty one
/// stays empty, with zero statistics.
fn breed<I: Individual>(
    ga: &GeneticAlgorithm<RouletteWheelSelection, UniformCrossover, GaussianMutation>,
    rng: &mut ChaCha8Rng,
    population: &Vec<I>,
    len: Ghost<nat>,
) -> (r: (Vec<I>, FitnessStats))
    requires
        genomes_have_len(population@, len@),
    ensures
        r.0@.len() == population@.len(),
        genomes_have_len(r.0@, len@),
        population@.len() == 0 ==> r.1 == zero_stats(),
        population@.len() > 0 ==> r.1 == stats_of(fitness_seq(population@)),
        stats_ordered(r.1),
        forall|k: int| 0 <= k < r.0@.len() ==> ga.may_breed(population@, (#[trigger] r.0@[k]).genome()),
{
    if population.len() == 0 {
        return (Vec::new(), FitnessStats { min_fitness: 0, max_fitness: 0, avg_fitness: 0 });
    }
    match ga.evolve(rng, population) {
        Some((offspring, stats)) => {
            proof {
                lemma_stats_ordered(fitness_seq(population@));
            }
            (offspring, stats)
        },
        None => {
            proof {
                assert(false);
            }
            (Vec::new(), FitnessStats { min_fitness: 0, max_fitness: 0, avg_fitness: 0 })
        },
    }
}

/// Whether `child` is bred from two of `parents`: a gene-by-gene choice
/// between them, then the simulation's mutation.
pub open spec fn bred_from(parents: Seq<Seq<i32>>, child: Seq<i32>) -> bool {
    exists|i: int, j: int, mid: Seq<i32>|
        #![trigger parents[i], parents[j], mutation_of(MUTATION_CHANCE as int, MUTATION_COEFF as int, mid, child)]
        0 <= i < parents.len() && 0 <= j < parents.len() && mid.len() == parents[i].len()
            && (forall|g: int| 0 <= g < mid.len() ==> #[trigger] mid[g] == parents[i][g] || mid[g] == parents[j][g])
            && mutation_of(MUTATION_CHANCE as int, MUTATION_COEFF as int, mid, child)
}

proof fn lemma_bred<I: Individual>(
    ga: GeneticAlgorithm<RouletteWheelSelection, UniformCrossover, GaussianMutation>,
    pop: Seq<I>,
    parents: Seq<Seq<i32>>,
    g: Seq<i32>,
)
    requires
        ga.may_breed(pop, g),
        ga.mutation.chance_spec() == MUTATION_CHANCE,
        ga.mutation.coeff_spec() == MUTATION_COEFF,
        parents.len() > 0,
        forall|n: int| 0 <= n < pop.len() ==> (#[trigger] pop[n]).genome() == parents[n % parents.len() as int],
        forall|m: int| 0 <= m < parents.len() ==> (#[trigger] parents[m]).len() == g.len(),
    ensures
        bred_from(parents, g),
{
    let (i, j, mid) = choose|i: int, j: int, mid: Seq<i32>|
        #![trigger ga.crossover.may_cross(pop[i].genome(), pop[j].genome(), mid), ga.mutation.may_mutate(mid, g)]
        0 <= i < pop.len() && 0 <= j < pop.len()
            && ga.selection.may_choose(fitness_seq(pop), i)
            && ga.selection.may_choose(fitness_seq(pop), j)
            && ga.crossover.may_cross(pop[i].genome(), pop[j].genome(), mid)
            && ga.mutation.may_mutate(mid, g);
    let l = parents.len() as int;
    lemma_mod_bound(i, l);
    lemma_mod_bound(j, l);
    assert(pop[i].genome() == parents[i % l]);
    assert(pop[j].genome() == parents[j % l]);
    assert(mutation_of(MUTATION_CHANCE as int, MUTATION_COEFF as int, mid, g));
    let w = choose|draws: Seq<(int, int)>| #[trigger] mutation_by(MUTATION_CHANCE as int, MUTATION_COEFF as int, mid, g, draws);
    assert(mid.len() == g.len());
    assert(parents[i % l].len() == g.len());
    assert(bred_from(parents, g)) by {
        assert(0 <= i % l < l && 0 <= j % l < l && mid.len() == parents[i % l].len());
    }
}

/// What a tick does to a world: populations keep their sizes, food stays
/// put unless a living prey had some within reach, dead prey stay as they
/// were, predators do not die, genomes are kept, satiation
/// only grows, and each living creature moves by its new speed along its
/// new heading.
pub open spec fn ticked(before: World, after: World) -> bool {
    &&& world_wf(after)
    &&& after.animals@.len() == before.animals@.len()
    &&& after.predators@.len() == before.predators@.len()
    &&& after.foods@.len() == before.foods@.len()
    &&& (forall|k: int, j: int| 0 <= k < before.animals@.len() && 0 <= j < before.foods@.len()
        ==> !eats(#[trigger] before.animals@[k], #[trigger] before.foods@[j])) ==> after.foods@ == before.foods@
    &&& forall|k: int| 0 <= k < after.animals@.len() ==> {
        let a = before.animals@[k];
        let b = #[trigger] after.animals@[k];
        &&& b.alive ==> a.alive
        &&& !a.alive ==> b == a
        &&& b.brain == a.brain
        &&& b.satiation >= a.satiation
        &&& b.alive ==> b.position == advance_spec(a.position, b.rotation as int, b.speed as int)
    }
    &&& forall|j: int| 0 <= j < after.predators@.len() ==> {
        let p = before.predators@[j];
        let q = #[trigger] after.predators@[j];
        &&& q.alive == p.alive
        &&& q.brain == p.brain
        &&& q.satiation >= p.satiation
        &&& q.alive ==> q.position == advance_spec(p.position, q.rotation as int, q.speed as int)
    }
}

/// The fitness of each slot of the prey breeding population: the living
/// prey repeated in turn up to the full prey count.
pub open spec fn resampled_fitness(live: Seq<Animal>) -> Seq<u64> {
    Seq::new(PREY_COUNT as nat, |n: int| (1 + live[n % live.len() as int].satiation) as u64)
}

/// The fitness of each living predator.
pub open spec fn predator_fitness(live: Seq<Predator>) -> Seq<u64> {
    Seq::new(live.len(), |n: int| (1 + live[n].satiation) as u64)
}

pub open spec fn animal_genomes(live: Seq<Animal>) -> Seq<Seq<i32>> {
    Seq::new(live.len(), |n: int| live[n].brain.genome())
}

pub open spec fn predator_genomes(live: Seq<Predator>) -> Seq<Seq<i32>> {
    Seq::new(live.len(), |n: int| live[n].brain.genome())
}

/// What the end of a generation does: from the world `w` it reached, the
/// next world `next` and the statistics `stats`.
pub open spec fn generation_end(w: World, next: World, stats: Statistics) -> bool {
    let prey = living_animals(w.animals@, w.animals@.len() as int);
    let hunters = living_predators(w.predators@, w.predators@.len() as int);
    &&& world_wf(next)
    &&& stats.num_dead_prey == dead_animals(w.animals@, w.animals@.len() as int)
    &&& stats.num_dead_predators == dead_predators(w.predators@, w.predators@.len() as int)
    &&& next.animals@.len() == if prey.len() == 0 { 0 } else { PREY_COUNT as int }
    &&& next.predators@.len() == hunters.len()
    &&& prey.len() == 0 ==> stats.prey_ga == zero_stats()
    &&& prey.len() > 0 ==> stats.prey_ga == stats_of(resampled_fitness(prey))
    &&& hunters.len() == 0 ==> stats.predator_ga == zero_stats()
    &&& hunters.len() > 0 ==> stats.predator_ga == stats_of(predator_fitness(hunters))
    &&& stats_ordered(stats.prey_ga)
    &&& stats_ordered(stats.predator_ga)
    &&& forall|k: int| 0 <= k < next.animals@.len() ==> (#[trigger] next.animals@[k]).newborn()
        && bred_from(animal_genomes(prey), next.animals@[k].brain.genome())
    &&& forall|k: int| 0 <= k < next.predators@.len() ==> (#[trigger] next.predators@[k]).newborn()
        && bred_from(predator_genomes(hunters), next.predators@[k].brain.genome())
}

/// A world of prey, predators and food, with a genetic algorithm for each
/// species.
pub struct Simulation {
    world: World,
    prey_ga: GeneticAlgorithm<RouletteWheelSelection, UniformCrossover, GaussianMutation>,
    predator_ga: GeneticAlgorithm<RouletteWheelSelection, UniformCrossover, GaussianMutation>,
    age: usize,
    generation: usize,
}

impl Simulation {
    /// The world is well formed, the age is within a generation, and both
    /// species mutate by the simulation's chance and coefficient.
    pub closed spec fn wf(&self) -> bool {
        &&& world_wf(self.world)
        &&& self.age <= GENERATION_LENGTH
        &&& self.prey_ga.mutation.chance_spec() == MUTATION_CHANCE
        &&& self.prey_ga.mutation.coeff_spec() == MUTATION_COEFF
        &&& self.predator_ga.mutation.chance_spec() == MUTATION_CHANCE
        &&& self.predator_ga.mutation.coeff_spec() == MUTATION_COEFF
    }

    /// Ticks since the generation began.
    pub closed spec fn age_spec(&self) -> nat {
        self.age as nat
    }

    /// Generations evolved so far.
    pub closed spec fn generation_spec(&self) -> nat {
        self.generation as nat
    }

    pub closed spec fn world_spec(&self) -> World {
        self.world
    }

    pub fn random(rng: &mut ChaCha8Rng) -> (r: Self)
        ensures
            r.wf(),
            world_wf(r.world_spec()),
            r.age_spec() == 0,
            r.generation_spec() == 0,
            r.world_spec().animals@.len() == PREY_COUNT,
            r.world_spec().predators@.len() == PREDATOR_COUNT,
            forall|i: int| 0 <= i < r.world_spec().animals@.len() ==> (#[trigger] r.world_spec().animals@[i]).newborn(),
            forall|i: int| 0 <= i < r.world_spec().predators@.len() ==> (#[trigger] r.world_spec().predators@[i]).newborn(),
    {
        let world = World::random(rng);
        let prey_ga = GeneticAlgorithm::new(
            RouletteWheelSelection,
            UniformCrossover,
            GaussianMutation::new(MUTATION_CHANCE, MUTATION_COEFF),
        );
        let predator_ga = GeneticAlgorithm::new(
            RouletteWheelSelection,
            UniformCrossover,
            GaussianMutation::new(MUTATION_CHANCE, MUTATION_COEFF),
        );
        Simulation { world, prey_ga, predator_ga, age: 0, generation: 0 }
    }

    pub fn world(&self) -> (r: &World)
        ensures
            *r == self.world_spec(),
    {
        &self.world
    }

    pub fn age(&self) -> (r: usize)
        ensures
            r == self.age_spec(),
    {
        self.age
    }

    pub fn generation(&self) -> (r: usize)
        ensures
            r == self.generation_spec(),
    {
        self.generation
    }

    /// The tick phases in order: feeding, catching, thinking, moving.
    fn tick(&mut self, rng: &mut ChaCha8Rng)
        requires
            old(self).wf(),
        ensures
            final(self).wf(),
            ticked(old(self).world, final(self).world),
            final(self).age == old(self).age,
            final(self).generation == old(self).generation,
    {
        let ghost w0 = self.world;
        prey_food_collisions(&mut self.world.animals, &mut self.world.foods, rng);
        let ghost a1 = self.world.animals@;
        let ghost f1 = self.world.foods@;
        predator_prey_collisions(&mut self.world.predators, &mut self.world.animals);
        let ghost a2 = self.world.animals@;
        let ghost p2 = self.world.predators@;
        let foods = food_positions(&self.world.foods);
        let predators = living_predator_positions(&self.world.predators);
        prey_brains(&mut self.world.animals, &foods, &predators);
        let ghost a3 = self.world.animals@;
        let prey = living_prey_positions(&self.world.animals);
        predator_brains(&mut self.world.predators, &prey);
        let ghost p3 = self.world.predators@;
        movements(&mut self.world.animals, &mut self.world.predators);
        proof {
            let w = self.world;
            assert(w.foods@ == f1);
            assert forall|k: int| 0 <= k < w.animals@.len() implies {
                let a = w0.animals@[k];
                let b = #[trigger] w.animals@[k];
                &&& b.alive ==> a.alive
                &&& !a.alive ==> b == a
                &&& b.brain == a.brain
                &&& b.satiation >= a.satiation
                &&& b.alive ==> b.position == advance_spec(a.position, b.rotation as int, b.speed as int)
            } by {
                assert(animals_wf(a1) && a1[k].wf() && w0.animals@[k].wf());
                if !w0.animals@[k].alive {
                    assert(a1[k] == w0.animals@[k]);
                    assert(a2[k] == a1[k]);
                }
            }
            assert forall|j: int| 0 <= j < w.predators@.len() implies {
                let p = w0.predators@[j];
                let q = #[trigger] w.predators@[j];
                &&& q.alive == p.alive
                &&& q.brain == p.brain
                &&& q.satiation >= p.satiation
                &&& q.alive ==> q.position == advance_spec(p.position, q.rotation as int, q.speed as int)
            } by {
                lemma_rewarded_grows(
                    w0.predators@[j].satiation,
                    catch_count(w0.predators@, a1, j, a1.len() as int),
                );
            }
        }
    }

    /// One tick: feeding, catching, thinking, moving; at the end of a
    /// generation, evolution, whose statistics are returned.
    pub fn step(&mut self, rng: &mut ChaCha8Rng) -> (r: Option<Statistics>)
        requires
            old(self).wf(),
            old(self).generation_spec() < usize::MAX,
        ensures
            final(self).wf(),
            world_wf(final(self).world_spec()),
            old(self).age_spec() + 1 > GENERATION_LENGTH <==> r is Some,
            r is None ==> {
                &&& final(self).age_spec() == old(self).age_spec() + 1
                &&& final(self).generation_spec() == old(self).generation_spec()
                &&& ticked(old(self).world_spec(), final(self).world_spec())
            },
            r matches Some(stats) ==> {
                &&& final(self).age_spec() == 0
                &&& final(self).generation_spec() == old(self).generation_spec() + 1
                &&& stats.generation == old(self).generation_spec()
                &&& stats.num_dead_prey <= PREY_COUNT
                &&& stats.num_dead_predators <= PREDATOR_COUNT
                &&& exists|w: World| #[trigger] ticked(old(self).world_spec(), w) && generation_end(w, final(self).world_spec(), stats)
            },
    {
        self.tick(rng);
        let ghost w1 = self.world;
        self.age = self.age + 1;
        if self.age > GENERATION_LENGTH {
            let stats = self.evolve(rng);
            assert(ticked(old(self).world_spec(), w1));
            Some(stats)
        } else {
            None
        }
    }

    /// Steps until the generation ends, and returns its statistics.
    pub fn fast_forward(&mut self, rng: &mut ChaCha8Rng) -> (r: Statistics)
        requires
            old(self).wf(),
            old(self).generation_spec() < usize::MAX,
        ensures
            final(self).wf(),
            world_wf(final(self).world_spec()),
            final(self).age_spec() == 0,
            final(self).generation_spec() == old(self).generation_spec() + 1,
            r.generation == old(self).generation_spec(),
            r.num_dead_prey <= PREY_COUNT,
            r.num_dead_predators <= PREDATOR_COUNT,
            exists|w: World| #[trigger] generation_end(w, final(self).world_spec(), r),
    {
        let ghost g0 = old(self).generation_spec();
        let mut out = self.step(rng);
        while out.is_none()
            invariant
                self.wf(),
                g0 < usize::MAX,
                out is None ==> self.generation_spec() == g0,
                out matches Some(stats) ==> {
                    &&& self.age_spec() == 0
                    &&& self.generation_spec() == g0 + 1
                    &&& stats.generation == g0
                    &&& stats.num_dead_prey <= PREY_COUNT
                    &&& stats.num_dead_predators <= PREDATOR_COUNT
                    &&& exists|w: World| #[trigger] generation_end(w, self.world_spec(), stats)
                },
            decreases if out is None { GENERATION_LENGTH + 1 - self.age_spec() } else { 0 },
        {
            out = self.step(rng);
        }
        match out {
            Some(stats) => stats,
            None => {
                proof {
                    assert(false);
                }
                Statistics {
                    generation: 0,
                    prey_ga: FitnessStats { min_fitness: 0, max_fitness: 0, avg_fitness: 0 },
                    predator_ga: FitnessStats { min_fitness: 0, max_fitness: 0, avg_fitness: 0 },
                    num_dead_prey: 0,
                    num_dead_predators: 0,
                }
            },
        }
    }

    /// Breeds the next generation from the survivors. Prey are bred from
    /// the living prey, repeated in turn to the full prey count, or not at
    /// all when none lives; predators from the living predators alone. Food
    /// is scattered anew.
    fn evolve(&mut self, rng: &mut ChaCha8Rng) -> (r: Statistics)
        requires
            world_wf(old(self).world),
            old(self).prey_ga.mutation.chance_spec() == MUTATION_CHANCE,
            old(self).prey_ga.mutation.coeff_spec() == MUTATION_COEFF,
            old(self).predator_ga.mutation.chance_spec() == MUTATION_CHANCE,
            old(self).predator_ga.mutation.coeff_spec() == MUTATION_COEFF,
            old(self).generation < usize::MAX,
        ensures
            final(self).wf(),
            final(self).age == 0,
            final(self).generation == old(self).generation + 1,
            r.generation == old(self).generation,
            r.num_dead_prey <= PREY_COUNT,
            r.num_dead_predators <= PREDATOR_COUNT,
            generation_end(old(self).world, final(self).world, r),
    {
        let ghost w = self.world;
        let ghost a = w.animals@;
        let ghost ps = w.predators@;
        let ghost prey = living_animals(a, a.len() as int);
        let ghost hunters = living_predators(ps, ps.len() as int);
        let generation = self.generation;
        let n_animals = self.world.animals.len();
        let mut alive: Vec<usize> = Vec::new();
        let mut dead_prey: u32 = 0;
        let mut i: usize = 0;
        while i < n_animals
            invariant
                self.world == w,
                a == w.animals@,
                n_animals == a.len() <= PREY_COUNT,
                i <= n_animals,
                dead_prey == dead_animals(a, i as int),
                alive@.len() == living_animals(a, i as int).len(),
                alive@.len() + dead_prey == i,
                forall|m: int| 0 <= m < alive@.len() ==> #[trigger] alive@[m] < n_animals
                    && a[alive@[m] as int] == living_animals(a, i as int)[m],
            decreases n_animals - i,
        {
            proof {
                lemma_living_animals(a, i as int);
            }
            if self.world.animals[i].alive {
                alive.push(i);
            } else {
                dead_prey = dead_prey + 1;
            }
            i = i + 1;
        }
        proof {
            lemma_living_animals(a, a.len() as int);
        }
        assert(crate::brain::weight_count(2 * crate::world::PREY_EYE_CELLS) == 758);
        assert(crate::brain::weight_count(crate::world::PREDATOR_EYE_CELLS as int) == 218);
        let ghost genome_len = crate::brain::weight_count(2 * crate::world::PREY_EYE_CELLS) as nat;
        let mut prey_population: Vec<AnimalIndividual> = Vec::new();
        if alive.len() > 0 {
            let mut n: usize = 0;
            while n < PREY_COUNT
                invariant
                    self.world == w,
                    a == w.animals@,
                    animals_wf(a),
                    n <= PREY_COUNT,
                    alive@.len() == prey.len() > 0,
                    n_animals == a.len(),
                    forall|m: int| 0 <= m < alive@.len() ==> #[trigger] alive@[m] < n_animals
                        && a[alive@[m] as int] == prey[m],
                    prey_population@.len() == n,
                    genome_len == 758,
                    crate::brain::weight_count(2 * crate::world::PREY_EYE_CELLS) == 758,
                    forall|k: int| 0 <= k < n ==> {
                        &&& (#[trigger] prey_population@[k]).genome() == prey[k % prey.len() as int].brain.genome()
                        &&& prey_population@[k].fitness_value() == 1 + prey[k % prey.len() as int].satiation
                        &&& prey_population@[k].genome().len() == genome_len
                    },
                decreases PREY_COUNT - n,
            {
                let slot = n % alive.len();
                let idx = alive[slot];
                assert(a[idx as int] == prey[slot as int]);
                assert(a[idx as int].wf());
                let ind = AnimalIndividual::from_animal(&self.world.animals[idx]);
                prey_population.push(ind);
                assert(prey_population@[n as int] == ind);
                n = n + 1;
            }
        }
        let n_predators = self.world.predators.len();
        let mut predator_population: Vec<PredatorIndividual> = Vec::new();
        let ghost pred_len = crate::brain::weight_count(crate::world::PREDATOR_EYE_CELLS as int) as nat;
        let mut dead_preds: u32 = 0;
        let mut i: usize = 0;
        while i < n_predators
            invariant
                self.world == w,
                ps == w.predators@,
                n_predators == ps.len() <= PREDATOR_COUNT,
                predators_wf(ps),
                i <= n_predators,
                dead_preds == dead_predators(ps, i as int),
                predator_population@.len() == living_predators(ps, i as int).len(),
                predator_population@.len() + dead_preds == i,
                pred_len == 218,
                crate::brain::weight_count(crate::world::PREDATOR_EYE_CELLS as int) == 218,
                forall|k: int| 0 <= k < predator_population@.len() ==> {
                    &&& (#[trigger] predator_population@[k]).genome() == living_predators(ps, i as int)[k].brain.genome()
                    &&& predator_population@[k].fitness_value() == 1 + living_predators(ps, i as int)[k].satiation
                    &&& predator_population@[k].genome().len() == pred_len
                },
            decreases n_predators - i,
        {
            proof {
                lemma_living_predators(ps, i as int);
            }
            if self.world.predators[i].alive {
                assert(living_predators(ps, i + 1) == living_predators(ps, i as int).push(ps[i as int]));
                assert(ps[i as int].wf());
                predator_population.push(PredatorIndividual::from_predator(&self.world.predators[i]));
            } else {
                dead_preds = dead_preds + 1;
            }
            i = i + 1;
        }
        proof {
            lemma_living_predators(ps, ps.len() as int);
            if prey.len() > 0 {
                assert(fitness_seq(prey_population@) =~= resampled_fitness(prey));
            }
            assert(fitness_seq(predator_population@) =~= predator_fitness(hunters));
        }
        let ghost prey_pop = prey_population@;
        let ghost pred_pop = predator_population@;
        let (mut evolved_prey, prey_stats) = breed(&self.prey_ga, rng, &prey_population, Ghost(genome_len));
        let (mut evolved_predators, predator_stats) = breed(
            &self.predator_ga,
            rng,
            &predator_population,
            Ghost(pred_len),
        );
        let ghost prey_parents = animal_genomes(prey);
        let ghost pred_parents = predator_genomes(hunters);
        proof {
            assert forall|m: int| 0 <= m < prey_parents.len() implies (#[trigger] prey_parents[m]).len() == genome_len by {
                assert(prey[m].wf());
            }
            assert forall|m: int| 0 <= m < pred_parents.len() implies (#[trigger] pred_parents[m]).len() == pred_len by {
                assert(hunters[m].wf());
            }
            assert forall|k: int| 0 <= k < pred_pop.len() implies (#[trigger] pred_pop[k]).genome()
                == pred_parents[k % pred_parents.len() as int] by {
                lemma_small_mod(k as nat, pred_parents.len());
            }
        }
        let mut animals: Vec<Animal> = Vec::new();
        let ghost total = evolved_prey@.len();
        while evolved_prey.len() > 0
            invariant
                animals@.len() + evolved_prey@.len() == total,
                genome_len == 758,
                crate::brain::weight_count(2 * crate::world::PREY_EYE_CELLS) == 758,
                total == prey_pop.len(),
                prey_pop.len() > 0 ==> prey_parents.len() > 0,
                self.prey_ga.mutation.chance_spec() == MUTATION_CHANCE,
                self.prey_ga.mutation.coeff_spec() == MUTATION_COEFF,
                forall|k: int| 0 <= k < prey_pop.len() ==> (#[trigger] prey_pop[k]).genome()
                    == prey_parents[k % prey_parents.len() as int],
                forall|m: int| 0 <= m < prey_parents.len() ==> (#[trigger] prey_parents[m]).len() == genome_len,
                forall|k: int| 0 <= k < evolved_prey@.len() ==> (#[trigger] evolved_prey@[k]).genome().len() == genome_len
                    && self.prey_ga.may_breed(prey_pop, evolved_prey@[k].genome()),
                forall|k: int| 0 <= k < animals@.len() ==> (#[trigger] animals@[k]).newborn()
                    && bred_from(prey_parents, animals@[k].brain.genome()),
            decreases evolved_prey@.len(),
        {
            let ind = evolved_prey.remove(0);
            proof {
                lemma_bred(self.prey_ga, prey_pop, prey_parents, ind.genome());
            }
            animals.push(ind.into_animal(rng));
        }
        let mut predators: Vec<Predator> = Vec::new();
        let ghost total = evolved_predators@.len();
        while evolved_predators.len() > 0
            invariant
                predators@.len() + evolved_predators@.len() == total,
                pred_len == 218,
                crate::brain::weight_count(crate::world::PREDATOR_EYE_CELLS as int) == 218,
                total == pred_pop.len(),
                pred_pop.len() == pred_parents.len(),
                self.predator_ga.mutation.chance_spec() == MUTATION_CHANCE,
                self.predator_ga.mutation.coeff_spec() == MUTATION_COEFF,
                forall|k: int| 0 <= k < pred_pop.len() ==> (#[trigger] pred_pop[k]).genome()
                    == pred_parents[k % pred_parents.len() as int],
                forall|m: int| 0 <= m < pred_parents.len() ==> (#[trigger] pred_parents[m]).len() == pred_len,
                forall|k: int| 0 <= k < evolved_predators@.len() ==> (#[trigger] evolved_predators@[k]).genome().len() == pred_len
                    && self.predator_ga.may_breed(pred_pop, evolved_predators@[k].genome()),
                forall|k: int| 0 <= k < predators@.len() ==> (#[trigger] predators@[k]).newborn()
                    && bred_from(pred_parents, predators@[k].brain.genome()),
            decreases evolved_predators@.len(),
        {
            let ind = evolved_predators.remove(0);
            proof {
                lemma_bred(self.predator_ga, pred_pop, pred_parents, ind.genome());
            }
            predators.push(ind.into_predator(rng));
        }
        let mut foods: Vec<Food> = Vec::new();
        while foods.len() < FOOD_COUNT
            invariant
                foods@.len() <= FOOD_COUNT,
                foods_wf(foods@),
            decreases FOOD_COUNT - foods@.len(),
        {
            let p = random_point(rng);
            foods.push(Food { position: p });
        }
        self.world.animals = animals;
        self.world.predators = predators;
        self.world.foods = foods;
        self.age = 0;
        self.generation = generation + 1;
        let stats = Statistics {
            generation,
            prey_ga: prey_stats,
            predator_ga: predator_stats,
            num_dead_prey: dead_prey,
            num_dead_predators: dead_preds,
        };
        proof {
            lemma_stats_ordered(resampled_fitness(prey));
            lemma_stats_ordered(predator_fitness(hunters));
        }
        stats
    }
}

/// A satiation only grows by rewards.
proof fn lemma_rewarded_grows(s: u32, n: nat)
    ensures
        rewarded(s, n) >= s,
    decreases n,
{
    if n > 0 {
        lemma_rewarded_grows(s, (n - 1) as nat);
    }
}

} // verus!
