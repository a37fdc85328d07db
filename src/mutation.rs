//! Perturbing a chromosome's genes.
use crate::chromosome::Chromosome;
use crate::rng::{draw_below, draw_between};
use rand_chacha::ChaCha8Rng;
use vstd::prelude::*;

verus! {

/// Chances are stated in millionths.
pub const CHANCE_SCALE: u32 = 1_000_000;

/// A way of perturbing a chromosome in place.
pub trait MutationMethod {
    /// Whether `after` may come of mutating `before`.
    spec fn may_mutate(&self, before: Seq<i32>, after: Seq<i32>) -> bool;

    fn mutate(&self, rng: &mut ChaCha8Rng, child: &mut Chromosome)
        ensures
            final(child)@.len() == old(child)@.len(),
            self.may_mutate(old(child)@, final(child)@),
    ;
}

/// `x` held within the range of `i32`.
pub open spec fn saturate(x: int) -> i32 {
    if x < i32::MIN {
        i32::MIN
    } else if x > i32::MAX {
        i32::MAX
    } else {
        x as i32
    }
}

/// Gene `i` after a roll and a drawn change: changed only for a roll below
/// the chance.
pub open spec fn mutated_gene(chance: int, before: i32, roll: int, delta: int) -> i32 {
    if roll < chance {
        saturate(before + delta)
    } else {
        before
    }
}

/// Whether `after` comes of `before` by one roll below `CHANCE_SCALE` and
/// one change within `[-coeff, coeff]` per gene.
pub open spec fn mutation_of(chance: int, coeff: int, before: Seq<i32>, after: Seq<i32>) -> bool {
    exists|draws: Seq<(int, int)>| #[trigger] mutation_by(chance, coeff, before, after, draws)
}

/// Whether `after` comes of `before` by the given roll and change per gene.
pub open spec fn mutation_by(chance: int, coeff: int, before: Seq<i32>, after: Seq<i32>, draws: Seq<(int, int)>) -> bool {
    &&& draws.len() == before.len()
    &&& after.len() == before.len()
    &&& forall|i: int|
        0 <= i < before.len() ==> 0 <= (#[trigger] draws[i]).0 < CHANCE_SCALE && -coeff <= draws[i].1 <= coeff
            && after[i] == mutated_gene(chance, before[i], draws[i].0, draws[i].1)
}

/// A mutation moves no gene by more than its coefficient, and one with no
/// chance changes nothing.
pub proof fn lemma_mutation_bounded(chance: int, coeff: int, before: Seq<i32>, after: Seq<i32>)
    requires
        mutation_of(chance, coeff, before, after),
        0 <= chance,
    ensures
        after.len() == before.len(),
        forall|i: int| 0 <= i < after.len() ==> -coeff <= #[trigger] after[i] - before[i] <= coeff,
        chance == 0 ==> after == before,
{
    let draws = choose|draws: Seq<(int, int)>| #[trigger] mutation_by(chance, coeff, before, after, draws);
    assert forall|i: int| 0 <= i < after.len() implies -coeff <= #[trigger] after[i] - before[i] <= coeff by {
        assert(after[i] == mutated_gene(chance, before[i], draws[i].0, draws[i].1));
    }
    if chance == 0 {
        assert forall|i: int| 0 <= i < after.len() implies #[trigger] after[i] == before[i] by {
            assert(after[i] == mutated_gene(chance, before[i], draws[i].0, draws[i].1));
        }
        assert(after =~= before);
    }
}

/// With a given chance per gene, adds to that gene a value drawn uniformly
/// from `[-coeff, coeff]`, held within the range of a gene.
#[derive(Clone, Copy, Debug)]
pub struct GaussianMutation {
    chance: u32,
    coeff: i32,
}

impl GaussianMutation {
    /// The chance per gene, in millionths.
    pub closed spec fn chance_spec(&self) -> u32 {
        self.chance
    }

    /// The largest change to one gene.
    pub closed spec fn coeff_spec(&self) -> i32 {
        self.coeff
    }

    /// A mutation with the chance per gene in millionths and the largest
    /// change to one gene.
    pub fn new(chance: u32, coeff: i32) -> (r: Self)
        requires
            chance <= CHANCE_SCALE,
            coeff >= 0,
        ensures
            r.chance_spec() == chance,
            r.coeff_spec() == coeff,
    {
        GaussianMutation { chance, coeff }
    }

    #[verifier::type_invariant]
    spec fn wf(&self) -> bool {
        self.chance <= CHANCE_SCALE && self.coeff >= 0
    }

    /// The new value of `gene` when the roll (below a million) is `roll`
    /// and the drawn change is `delta`: changed only for a roll below the
    /// chance.
    pub fn mutate_gene(&self, gene: i32, roll: u32, delta: i32) -> (r: i32)
        ensures
            r == if roll < self.chance_spec() { saturate(gene + delta) } else { gene },
    {
        if roll < self.chance {
            let x = gene as i64 + delta as i64;
            if x < i32::MIN as i64 {
                i32::MIN
            } else if x > i32::MAX as i64 {
                i32::MAX
            } else {
                x as i32
            }
        } else {
            gene
        }
    }
}

impl MutationMethod for GaussianMutation {
    open spec fn may_mutate(&self, before: Seq<i32>, after: Seq<i32>) -> bool {
        mutation_of(self.chance_spec() as int, self.coeff_spec() as int, before, after)
    }

    fn mutate(&self, rng: &mut ChaCha8Rng, child: &mut Chromosome) {
        proof {
            use_type_invariant(self);
        }
        let ghost before = child@;
        let ghost mut draws: Seq<(int, int)> = Seq::empty();
        let mut i: usize = 0;
        while i < child.len()
            invariant
                i <= child@.len(),
                self.coeff >= 0,
                child@.len() == before.len(),
                draws.len() == i,
                forall|k: int|
                    0 <= k < i ==> 0 <= (#[trigger] draws[k]).0 < CHANCE_SCALE && -self.coeff <= draws[k].1 <= self.coeff
                        && child@[k] == mutated_gene(self.chance as int, before[k], draws[k].0, draws[k].1),
                forall|k: int| i <= k < child@.len() ==> #[trigger] child@[k] == before[k],
            decreases child@.len() - i,
        {
            let roll = draw_below(rng, CHANCE_SCALE as u64) as u32;
            let mut delta: i32 = 0;
            if roll < self.chance {
                delta = draw_between(rng, -(self.coeff as i64), self.coeff as i64) as i32;
                let g = child.get(i);
                let m = self.mutate_gene(g, roll, delta);
                child.set(i, m);
            }
            proof {
                draws = draws.push((roll as int, delta as int));
            }
            i = i + 1;
        }
        assert(mutation_by(self.chance as int, self.coeff as int, before, child@, draws));
    }
}

} // verus!
