//! The creatures and food of one generation.
use crate::brain::{Brain, weight_count};
use crate::chromosome::{Chromosome, genes_bytes};
use crate::color::{Rgba, color_of};
use crate::eye::Eye;
use crate::geometry::{HEADING_STEPS, Point, WORLD_SIZE};
use crate::rng::draw_below;
use rand_chacha::ChaCha8Rng;
use vstd::prelude::*;

verus! {

/// Prey in a fresh world, and bred each generation while any survive.
pub const PREY_COUNT: usize = 40;

/// Predators in a fresh world.
pub const PREDATOR_COUNT: usize = 6;

/// Food pellets in the world.
pub const FOOD_COUNT: usize = 60;

/// Cells of each creature's eye.
pub const PREY_EYE_CELLS: usize = 9;
pub const PREDATOR_EYE_CELLS: usize = 9;

/// Speed bounds, in world units per tick.
pub const PREY_SPEED_MIN: i64 = 700;
pub const PREY_SPEED_MAX: i64 = 3500;
pub const PREY_SPEED_START: i64 = 2000;
pub const PREDATOR_SPEED_MIN: i64 = 600;
pub const PREDATOR_SPEED_MAX: i64 = 3200;
pub const PREDATOR_SPEED_START: i64 = 1100;

/// The fixed color that predators are drawn in.
pub open spec fn predator_color_spec() -> Rgba {
    Rgba { r: 255, g: 90, b: 90, a: 255 }
}

pub fn predator_color() -> (r: Rgba)
    ensures
        r == predator_color_spec(),
{
    Rgba { r: 255, g: 90, b: 90, a: 255 }
}

/// A point drawn uniformly on the torus.
pub fn random_point(rng: &mut ChaCha8Rng) -> (r: Point)
    ensures
        r.on_torus(),
{
    let x = draw_below(rng, WORLD_SIZE as u64) as i64;
    let y = draw_below(rng, WORLD_SIZE as u64) as i64;
    Point { x, y }
}

/// A heading drawn uniformly.
pub fn random_heading(rng: &mut ChaCha8Rng) -> (r: u32)
    ensures
        r < HEADING_STEPS,
{
    draw_below(rng, HEADING_STEPS as u64) as u32
}

/// A food pellet.
#[derive(Clone, Copy, Debug)]
pub struct Food {
    pub position: Point,
}

impl Food {
    pub fn random(rng: &mut ChaCha8Rng) -> (r: Self)
        ensures
            r.wf(),
    {
        Food { position: random_point(rng) }
    }

    pub open spec fn wf(&self) -> bool {
        self.position.on_torus()
    }

    pub fn position(&self) -> (r: Point)
        ensures
            r == self.position_spec(),
    {
        self.position
    }

    pub open spec fn position_spec(&self) -> Point {
        self.position
    }
}

/// A prey animal.
pub struct Animal {
    pub position: Point,
    pub rotation: u32,
    pub speed: i64,
    pub eye: Eye,
    pub brain: Brain,
    pub satiation: u32,
    pub color: Rgba,
    pub alive: bool,
}

impl Animal {
    /// On the torus, heading in range, speed within bounds while alive and
    /// zero once dead, and a brain that reads food and predator vision.
    pub open spec fn wf(&self) -> bool {
        &&& self.position.on_torus()
        &&& self.rotation < HEADING_STEPS
        &&& self.alive ==> PREY_SPEED_MIN <= self.speed <= PREY_SPEED_MAX
        &&& !self.alive ==> self.speed == 0
        &&& self.brain.inputs_spec() == 2 * self.eye.cells_spec()
        &&& self.eye.cells_spec() == PREY_EYE_CELLS
        &&& self.brain.genome().len() == weight_count(2 * PREY_EYE_CELLS)
    }

    /// A newborn animal: alive, unfed, at a random place and heading.
    pub open spec fn newborn(&self) -> bool {
        &&& self.wf()
        &&& self.alive
        &&& self.satiation == 0
        &&& self.speed == PREY_SPEED_START
        &&& self.color == color_of(genes_bytes(self.brain.genome()))
    }

    pub fn random(rng: &mut ChaCha8Rng) -> (r: Self)
        ensures
            r.newborn(),
    {
        let eye = Eye::default();
        let brain = Brain::random(rng, 2 * eye.cells());
        Animal::new(eye, brain, rng)
    }

    fn new(eye: Eye, brain: Brain, rng: &mut ChaCha8Rng) -> (r: Self)
        requires
            brain.inputs_spec() == 2 * eye.cells_spec(),
            eye.cells_spec() == PREY_EYE_CELLS,
            brain.genome().len() == weight_count(2 * PREY_EYE_CELLS),
        ensures
            r.newborn(),
            r.eye == eye,
            r.brain.genome() == brain.genome(),
    {
        let color = brain.color();
        let position = random_point(rng);
        let rotation = random_heading(rng);
        Animal { position, rotation, speed: PREY_SPEED_START, eye, brain, satiation: 0, color, alive: true }
    }

    /// An animal whose brain the chromosome encodes.
    pub(crate) fn from_chromosome(chromosome: Chromosome, rng: &mut ChaCha8Rng) -> (r: Self)
        requires
            chromosome@.len() == weight_count(2 * PREY_EYE_CELLS),
        ensures
            r.newborn(),
            r.brain.genome() == chromosome@,
    {
        let eye = Eye::default();
        let brain = Brain::from_chromosome(chromosome, 2 * eye.cells());
        Animal::new(eye, brain, rng)
    }

    pub(crate) fn as_chromosome(&self) -> (r: Chromosome)
        ensures
            r@ == self.brain.genome(),
    {
        self.brain.as_chromosome()
    }

    pub fn position(&self) -> (r: Point)
        ensures
            r == self.position_spec(),
    {
        self.position
    }

    pub open spec fn position_spec(&self) -> Point {
        self.position
    }

    /// The heading, in steps of five degrees.
    pub fn rotation(&self) -> (r: u32)
        ensures
            r == self.rotation,
    {
        self.rotation
    }

    pub fn color(&self) -> (r: Rgba)
        ensures
            r == self.color,
    {
        self.color
    }

    /// Food eaten this generation.
    pub fn satiation(&self) -> (r: u32)
        ensures
            r == self.satiation,
    {
        self.satiation
    }
}

/// A predator.
pub struct Predator {
    pub position: Point,
    pub rotation: u32,
    pub speed: i64,
    pub eye: Eye,
    pub brain: Brain,
    pub satiation: u32,
    pub color: Rgba,
    pub alive: bool,
}

impl Predator {
    /// On the torus, heading in range, speed within bounds, and a brain
    /// that reads prey vision.
    pub open spec fn wf(&self) -> bool {
        &&& self.position.on_torus()
        &&& self.rotation < HEADING_STEPS
        &&& PREDATOR_SPEED_MIN <= self.speed <= PREDATOR_SPEED_MAX
        &&& self.brain.inputs_spec() == self.eye.cells_spec()
        &&& self.eye.cells_spec() == PREDATOR_EYE_CELLS
        &&& self.brain.genome().len() == weight_count(PREDATOR_EYE_CELLS as int)
    }

    pub open spec fn newborn(&self) -> bool {
        &&& self.wf()
        &&& self.alive
        &&& self.satiation == 0
        &&& self.speed == PREDATOR_SPEED_START
        &&& self.color == predator_color_spec()
    }

    pub fn random(rng: &mut ChaCha8Rng) -> (r: Self)
        ensures
            r.newborn(),
    {
        let eye = Eye::default();
        let brain = Brain::random(rng, eye.cells());
        Predator::new(eye, brain, rng)
    }

    fn new(eye: Eye, brain: Brain, rng: &mut ChaCha8Rng) -> (r: Self)
        requires
            brain.inputs_spec() == eye.cells_spec(),
            eye.cells_spec() == PREDATOR_EYE_CELLS,
            brain.genome().len() == weight_count(PREDATOR_EYE_CELLS as int),
        ensures
            r.newborn(),
            r.eye == eye,
            r.brain.genome() == brain.genome(),
    {
        let position = random_point(rng);
        let rotation = random_heading(rng);
        Predator {
            position,
            rotation,
            speed: PREDATOR_SPEED_START,
            eye,
            brain,
            satiation: 0,
            color: predator_color(),
            alive: true,
        }
    }

    pub(crate) fn from_chromosome(chromosome: Chromosome, rng: &mut ChaCha8Rng) -> (r: Self)
        requires
            chromosome@.len() == weight_count(PREDATOR_EYE_CELLS as int),
        ensures
            r.newborn(),
            r.brain.genome() == chromosome@,
    {
        let eye = Eye::default();
        let brain = Brain::from_chromosome(chromosome, eye.cells());
        Predator::new(eye, brain, rng)
    }

    pub(crate) fn as_chromosome(&self) -> (r: Chromosome)
        ensures
            r@ == self.brain.genome(),
    {
        self.brain.as_chromosome()
    }

    pub fn position(&self) -> (r: Point)
        ensures
            r == self.position_spec(),
    {
        self.position
    }

    pub open spec fn position_spec(&self) -> Point {
        self.position
    }

    pub fn rotation(&self) -> (r: u32)
        ensures
            r == self.rotation,
    {
        self.rotation
    }

    pub fn color(&self) -> (r: Rgba)
        ensures
            r == self.color,
    {
        self.color
    }

    /// Prey eaten this generation, three points each.
    pub fn satiation(&self) -> (r: u32)
        ensures
            r == self.satiation,
    {
        self.satiation
    }
}

/// The creatures and food of the current generation.
pub struct World {
    pub animals: Vec<Animal>,
    pub predators: Vec<Predator>,
    pub foods: Vec<Food>,
}

impl World {
    pub fn random(rng: &mut ChaCha8Rng) -> (r: Self)
        ensures
            r.animals@.len() == PREY_COUNT,
            r.predators@.len() == PREDATOR_COUNT,
            r.foods@.len() == FOOD_COUNT,
            forall|i: int| 0 <= i < r.animals@.len() ==> (#[trigger] r.animals@[i]).newborn(),
            forall|i: int| 0 <= i < r.predators@.len() ==> (#[trigger] r.predators@[i]).newborn(),
            forall|i: int| 0 <= i < r.foods@.len() ==> (#[trigger] r.foods@[i]).wf(),
    {
        let mut animals: Vec<Animal> = Vec::new();
        while animals.len() < PREY_COUNT
            invariant
                animals@.len() <= PREY_COUNT,
                forall|i: int| 0 <= i < animals@.len() ==> (#[trigger] animals@[i]).newborn(),
            decreases PREY_COUNT - animals@.len(),
        {
            animals.push(Animal::random(rng));
        }
        let mut predators: Vec<Predator> = Vec::new();
        while predators.len() < PREDATOR_COUNT
            invariant
                predators@.len() <= PREDATOR_COUNT,
                forall|i: int| 0 <= i < predators@.len() ==> (#[trigger] predators@[i]).newborn(),
            decreases PREDATOR_COUNT - predators@.len(),
        {
            predators.push(Predator::random(rng));
        }
        let mut foods: Vec<Food> = Vec::new();
        while foods.len() < FOOD_COUNT
            invariant
                foods@.len() <= FOOD_COUNT,
                forall|i: int| 0 <= i < foods@.len() ==> (#[trigger] foods@[i]).wf(),
            decreases FOOD_COUNT - foods@.len(),
        {
            foods.push(Food::random(rng));
        }
        World { animals, predators, foods }
    }

    pub open spec fn animals_spec(&self) -> Seq<Animal> {
        self.animals@
    }

    pub open spec fn predators_spec(&self) -> Seq<Predator> {
        self.predators@
    }

    pub open spec fn foods_spec(&self) -> Seq<Food> {
        self.foods@
    }

    pub fn animals(&self) -> (r: &Vec<Animal>)
        ensures
            r@ == self.animals_spec(),
    {
        &self.animals
    }

    pub fn predators(&self) -> (r: &Vec<Predator>)
        ensures
            r@ == self.predators_spec(),
    {
        &self.predators
    }

    pub fn foods(&self) -> (r: &Vec<Food>)
        ensures
            r@ == self.foods_spec(),
    {
        &self.foods
    }
}

} // verus!

verus! {

pub open spec fn animals_wf(s: Seq<Animal>) -> bool {
    forall|k: int| 0 <= k < s.len() ==> (#[trigger] s[k]).wf()
}

pub open spec fn predators_wf(s: Seq<Predator>) -> bool {
    forall|k: int| 0 <= k < s.len() ==> (#[trigger] s[k]).wf()
}

pub open spec fn foods_wf(s: Seq<Food>) -> bool {
    forall|k: int| 0 <= k < s.len() ==> (#[trigger] s[k]).wf()
}

/// How many of the first `n` animals are dead.
pub open spec fn dead_animals(s: Seq<Animal>, n: int) -> nat
    decreases n,
{
    if n <= 0 {
        0
    } else {
        dead_animals(s, n - 1) + if s[n - 1].alive { 0nat } else { 1nat }
    }
}

/// How many of the first `n` predators are dead.
pub open spec fn dead_predators(s: Seq<Predator>, n: int) -> nat
    decreases n,
{
    if n <= 0 {
        0
    } else {
        dead_predators(s, n - 1) + if s[n - 1].alive { 0nat } else { 1nat }
    }
}

} // verus!

verus! {

/// Whether `a` and `b` lie within distance `r` of each other.
pub open spec fn within(a: Point, b: Point, r: int) -> bool {
    crate::geometry::dist_sq_spec(a, b) <= r * r
}

/// The living among the first `n` animals, in order.
pub open spec fn living_animals(s: Seq<Animal>, n: int) -> Seq<Animal>
    decreases n,
{
    if n <= 0 {
        Seq::empty()
    } else if s[n - 1].alive {
        living_animals(s, n - 1).push(s[n - 1])
    } else {
        living_animals(s, n - 1)
    }
}

/// The living among the first `n` predators, in order.
pub open spec fn living_predators(s: Seq<Predator>, n: int) -> Seq<Predator>
    decreases n,
{
    if n <= 0 {
        Seq::empty()
    } else if s[n - 1].alive {
        living_predators(s, n - 1).push(s[n - 1])
    } else {
        living_predators(s, n - 1)
    }
}

pub proof fn lemma_living_animals(s: Seq<Animal>, n: int)
    requires
        0 <= n <= s.len(),
    ensures
        living_animals(s, n).len() + dead_animals(s, n) == n,
        forall|m: int| 0 <= m < living_animals(s, n).len() ==> (#[trigger] living_animals(s, n)[m]).alive,
        animals_wf(s) ==> animals_wf(living_animals(s, n)),
    decreases n,
{
    if n > 0 {
        lemma_living_animals(s, n - 1);
    }
}

pub proof fn lemma_living_predators(s: Seq<Predator>, n: int)
    requires
        0 <= n <= s.len(),
    ensures
        living_predators(s, n).len() + dead_predators(s, n) == n,
        forall|m: int| 0 <= m < living_predators(s, n).len() ==> (#[trigger] living_predators(s, n)[m]).alive,
        predators_wf(s) ==> predators_wf(living_predators(s, n)),
    decreases n,
{
    if n > 0 {
        lemma_living_predators(s, n - 1);
    }
}

/// Every creature and food pellet is well formed and the populations are
/// within their sizes.
pub open spec fn world_wf(w: World) -> bool {
    &&& w.animals@.len() <= PREY_COUNT
    &&& w.predators@.len() <= PREDATOR_COUNT
    &&& w.foods@.len() == FOOD_COUNT
    &&& animals_wf(w.animals@)
    &&& predators_wf(w.predators@)
    &&& foods_wf(w.foods@)
}

} // verus!
