//! Combining two parent chromosomes into a child.
use crate::chromosome::Chromosome;
use crate::rng::draw_coin;
use rand_chacha::ChaCha8Rng;
use vstd::prelude::*;

verus! {

/// A way of combining two parents of equal length into a child.
pub trait CrossoverMethod {
    /// Whether `child` may come of parents `a` and `b`.
    spec fn may_cross(&self, a: Seq<i32>, b: Seq<i32>, child: Seq<i32>) -> bool;

    fn crossover(&self, rng: &mut ChaCha8Rng, a: &Chromosome, b: &Chromosome) -> (r: Chromosome)
        requires
            a@.len() == b@.len(),
        ensures
            r@.len() == a@.len(),
            self.may_cross(a@, b@, r@),
    ;
}

/// Each gene of the child is taken from one parent or the other, with equal
/// chance.
#[derive(Clone, Copy, Debug, Default)]
pub struct UniformCrossover;

/// The child whose gene `i` is `a`'s where `coins[i]` holds and `b`'s
/// otherwise.
pub open spec fn cross_by_coins(a: Seq<i32>, b: Seq<i32>, coins: Seq<bool>) -> Seq<i32> {
    Seq::new(a.len(), |i: int| if coins[i] { a[i] } else { b[i] })
}

impl UniformCrossover {
    /// Builds the child that the coin flips choose.
    pub fn cross(a: &Chromosome, b: &Chromosome, coins: &Vec<bool>) -> (r: Chromosome)
        requires
            a@.len() == b@.len(),
            coins@.len() == a@.len(),
        ensures
            r@ == cross_by_coins(a@, b@, coins@),
    {
        let mut genes: Vec<i32> = Vec::new();
        let mut i: usize = 0;
        while i < a.len()
            invariant
                a@.len() == b@.len(),
                coins@.len() == a@.len(),
                i <= a@.len(),
                genes@ =~= cross_by_coins(a@, b@, coins@).subrange(0, i as int),
            decreases a@.len() - i,
        {
            let g = if coins[i] {
                a.get(i)
            } else {
                b.get(i)
            };
            genes.push(g);
            i = i + 1;
        }
        Chromosome::from_genes(genes)
    }
}

impl CrossoverMethod for UniformCrossover {
    open spec fn may_cross(&self, a: Seq<i32>, b: Seq<i32>, child: Seq<i32>) -> bool {
        forall|i: int| 0 <= i < child.len() ==> #[trigger] child[i] == a[i] || child[i] == b[i]
    }

    fn crossover(&self, rng: &mut ChaCha8Rng, a: &Chromosome, b: &Chromosome) -> (r: Chromosome) {
        let mut coins: Vec<bool> = Vec::new();
        let mut i: usize = 0;
        while i < a.len()
            invariant
                i <= a@.len(),
                coins@.len() == i,
            decreases a@.len() - i,
        {
            coins.push(draw_coin(rng));
            i = i + 1;
        }
        UniformCrossover::cross(a, b, &coins)
    }
}

} // verus!
