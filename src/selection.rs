//! Choosing parents from a population.
use crate::individual::{Individual, fitness_seq, fitnesses};
use crate::rng::{draw_below, draw_weighted};
use rand_chacha::ChaCha8Rng;
use vstd::arithmetic::power2::{lemma2_to64, lemma2_to64_rest, lemma_pow2_adds, lemma_pow2_pos, lemma_pow2_strictly_increases, lemma_pow2_unfold, pow2};
use vstd::prelude::*;

verus! {

/// The largest population that rank-based selection takes: its weights
/// double with each rank and must stay within 128 bits.
pub const MAX_RANKED_POPULATION: usize = 127;

/// Sum of the first `n` weights.
pub open spec fn weight_prefix(w: Seq<u128>, n: int) -> int
    decreases n,
{
    if n <= 0 {
        0
    } else {
        weight_prefix(w, n - 1) + w[n - 1]
    }
}

pub open spec fn weight_total(w: Seq<u128>) -> int {
    weight_prefix(w, w.len() as int)
}

/// How many of the values are strictly below `x`.
pub open spec fn count_below(f: Seq<u64>, x: u64, n: int) -> nat
    decreases n,
{
    if n <= 0 {
        0
    } else {
        count_below(f, x, n - 1) + if f[n - 1] < x { 1nat } else { 0nat }
    }
}

/// The rank of member `i`: one more than the number of members with lower
/// fitness, so that equal fitness gives equal rank.
pub open spec fn rank_of(f: Seq<u64>, i: int) -> nat {
    1 + count_below(f, f[i], f.len() as int)
}

/// Rank-based weights: two to the power of each member's rank.
pub open spec fn rank_weights_of(f: Seq<u64>) -> Seq<u128> {
    Seq::new(f.len(), |i: int| pow2(rank_of(f, i)) as u128)
}

/// Fitness-proportionate weights: each member's fitness.
pub open spec fn fitness_weights_of(f: Seq<u64>) -> Seq<u128> {
    Seq::new(f.len(), |i: int| f[i] as u128)
}

proof fn lemma_prefix_nonneg(w: Seq<u128>, n: int)
    ensures
        weight_prefix(w, n) >= 0,
    decreases n,
{
    if n > 0 {
        lemma_prefix_nonneg(w, n - 1);
    }
}

proof fn lemma_prefix_monotone(w: Seq<u128>, i: int, j: int)
    requires
        0 <= i <= j <= w.len(),
    ensures
        0 <= weight_prefix(w, i) <= weight_prefix(w, j),
    decreases j - i,
{
    lemma_prefix_nonneg(w, i);
    if i < j {
        lemma_prefix_monotone(w, i, j - 1);
    }
}

proof fn lemma_prefix_bounded(w: Seq<u128>, n: int, b: int)
    requires
        0 <= n <= w.len(),
        forall|k: int| 0 <= k < w.len() ==> w[k] <= b,
    ensures
        weight_prefix(w, n) <= b * n,
    decreases n,
{
    if n > 0 {
        lemma_prefix_bounded(w, n - 1, b);
        assert(w[n - 1] <= b);
        assert(weight_prefix(w, n) == weight_prefix(w, n - 1) + w[n - 1]);
        assert(b * n == b * (n - 1) + b) by (nonlinear_arith);
    } else {
        assert(b * n == 0) by (nonlinear_arith)
            requires n == 0;
    }
}

proof fn lemma_count_below_bound(f: Seq<u64>, x: u64, n: int)
    requires
        0 <= n <= f.len(),
    ensures
        count_below(f, x, n) <= n,
    decreases n,
{
    if n > 0 {
        lemma_count_below_bound(f, x, n - 1);
    }
}

proof fn lemma_count_below_excludes(f: Seq<u64>, i: int, n: int)
    requires
        0 <= i < n <= f.len(),
    ensures
        count_below(f, f[i], n) <= n - 1,
    decreases n,
{
    if n - 1 == i {
        lemma_count_below_bound(f, f[i], n - 1);
    } else {
        lemma_count_below_excludes(f, i, n - 1);
    }
}

/// How many of the first `n` values are below `y`.
spec fn count_lt(f: Seq<u64>, y: int, n: int) -> nat
    decreases n,
{
    if n <= 0 {
        0
    } else {
        count_lt(f, y, n - 1) + if (f[n - 1] as int) < y { 1nat } else { 0nat }
    }
}

/// How many of the first `n` values equal `v`.
spec fn count_eq(f: Seq<u64>, v: int, n: int) -> nat
    decreases n,
{
    if n <= 0 {
        0
    } else {
        count_eq(f, v, n - 1) + if f[n - 1] as int == v { 1nat } else { 0nat }
    }
}

/// Sum, over the first `n` members below `y`, of two to the power of the
/// number of members below them.
spec fn below_sum(f: Seq<u64>, y: int, n: int) -> nat
    decreases n,
{
    if n <= 0 {
        0
    } else {
        below_sum(f, y, n - 1) + if (f[n - 1] as int) < y {
            pow2(count_lt(f, f[n - 1] as int, f.len() as int))
        } else {
            0nat
        }
    }
}

/// The largest of the first `n` values below `y` (`-1` for none).
spec fn max_below(f: Seq<u64>, y: int, n: int) -> int
    decreases n,
{
    if n <= 0 {
        -1
    } else {
        let m = max_below(f, y, n - 1);
        if (f[n - 1] as int) < y && f[n - 1] as int > m {
            f[n - 1] as int
        } else {
            m
        }
    }
}

proof fn lemma_count_lt_matches(f: Seq<u64>, x: u64, n: int)
    ensures
        count_below(f, x, n) == count_lt(f, x as int, n),
    decreases n,
{
    if n > 0 {
        lemma_count_lt_matches(f, x, n - 1);
    }
}

proof fn lemma_max_below(f: Seq<u64>, y: int, n: int)
    requires
        0 <= n <= f.len(),
        y >= 0,
    ensures
        count_lt(f, y, n) == 0 ==> max_below(f, y, n) == -1,
        forall|i: int| 0 <= i < n && (f[i] as int) < y ==> f[i] as int <= max_below(f, y, n),
        max_below(f, y, n) < y,
        count_lt(f, y, n) > 0 ==> max_below(f, y, n) >= 0 && count_eq(f, max_below(f, y, n), n) > 0,
    decreases n,
{
    if n > 0 {
        lemma_max_below(f, y, n - 1);
        let m = max_below(f, y, n - 1);
        if (f[n - 1] as int) < y && f[n - 1] as int > m {
            lemma_count_eq_pos(f, f[n - 1] as int, n);
        } else if count_lt(f, y, n) > 0 {
            if count_lt(f, y, n - 1) == 0 {
                assert((f[n - 1] as int) < y);
                assert(false);
            }
            lemma_count_eq_mono(f, m, n);
        }
    }
}

proof fn lemma_count_eq_pos(f: Seq<u64>, v: int, n: int)
    requires
        0 < n <= f.len(),
        f[n - 1] as int == v,
    ensures
        count_eq(f, v, n) > 0,
{
}

proof fn lemma_count_eq_mono(f: Seq<u64>, v: int, n: int)
    requires
        0 < n <= f.len(),
    ensures
        count_eq(f, v, n) >= count_eq(f, v, n - 1),
{
}

/// With no value strictly between `v` and `y`, the members below `y` are
/// those below `v` and those equal to it.
proof fn lemma_split(f: Seq<u64>, y: int, v: int, n: int)
    requires
        0 <= n <= f.len(),
        v < y,
        forall|i: int| 0 <= i < f.len() && (f[i] as int) < y ==> f[i] as int <= v,
    ensures
        count_lt(f, y, n) == count_lt(f, v, n) + count_eq(f, v, n),
        below_sum(f, y, n) == below_sum(f, v, n) + count_eq(f, v, n) * pow2(count_lt(f, v, f.len() as int)),
    decreases n,
{
    let pp = pow2(count_lt(f, v, f.len() as int));
    let cc = count_eq(f, v, n);
    assert(cc * pp >= 0) by (nonlinear_arith)
        requires cc >= 0, pp >= 0;
    if n > 0 {
        lemma_split(f, y, v, n - 1);
        assert((f[n - 1] as int) < y ==> f[n - 1] as int <= v);
        let c = count_eq(f, v, n - 1);
        let p = pow2(count_lt(f, v, f.len() as int));
        let x = f[n - 1] as int;
        assert((c + 1) * p == c * p + p) by (nonlinear_arith);
        if x == v {
            assert(count_eq(f, v, n) == c + 1);
            assert(count_eq(f, v, n) * p == c * p + p);
            assert(below_sum(f, v, n) == below_sum(f, v, n - 1));
            assert(below_sum(f, y, n) == below_sum(f, y, n - 1) + p);
            assert(below_sum(f, y, n) == below_sum(f, v, n) + count_eq(f, v, n) * p);
        } else if x < v {
            assert(count_eq(f, v, n) == c);
            assert(count_eq(f, v, n) * p == c * p);
            let q = pow2(count_lt(f, x, f.len() as int));
            assert(below_sum(f, y, n) == below_sum(f, y, n - 1) + q);
            assert(below_sum(f, v, n) == below_sum(f, v, n - 1) + q);
            assert(below_sum(f, y, n) == below_sum(f, v, n) + count_eq(f, v, n) * p);
        } else {
            assert(count_eq(f, v, n) == c);
            assert(count_eq(f, v, n) * p == c * p);
            assert(below_sum(f, y, n) == below_sum(f, y, n - 1));
            assert(below_sum(f, v, n) == below_sum(f, v, n - 1));
            assert(below_sum(f, y, n) == below_sum(f, v, n) + count_eq(f, v, n) * p);
        }
    } else {
        assert(cc == 0);
        assert(cc * pp == 0) by (nonlinear_arith)
            requires cc == 0;
    }
}
proof fn lemma_below_sum_empty(f: Seq<u64>, y: int, n: int)
    requires
        0 <= n <= f.len(),
        count_lt(f, y, n) == 0,
    ensures
        below_sum(f, y, n) == 0,
    decreases n,
{
    if n > 0 {
        lemma_below_sum_empty(f, y, n - 1);
    }
}

proof fn lemma_succ_le_pow2(m: nat)
    requires
        m >= 1,
    ensures
        m + 1 <= pow2(m),
    decreases m,
{
    lemma_pow2_unfold(m);
    if m > 1 {
        lemma_succ_le_pow2((m - 1) as nat);
    } else {
        lemma2_to64();
    }
}

proof fn lemma_count_lt_bound(f: Seq<u64>, y: int, n: int)
    requires
        0 <= n <= f.len(),
    ensures
        count_lt(f, y, n) <= n,
    decreases n,
{
    if n > 0 {
        lemma_count_lt_bound(f, y, n - 1);
    }
}

/// The members below `y` weigh together less than two to the power of their
/// number.
proof fn lemma_below_sum_bound(f: Seq<u64>, y: int)
    requires
        y >= 0,
    ensures
        below_sum(f, y, f.len() as int) + 1 <= pow2(count_lt(f, y, f.len() as int)),
    decreases count_lt(f, y, f.len() as int),
{
    let n = f.len() as int;
    if count_lt(f, y, n) == 0 {
        lemma_below_sum_empty(f, y, n);
        lemma2_to64();
    } else {
        lemma_max_below(f, y, n);
        let v = max_below(f, y, n);
        lemma_split(f, y, v, n);
        let m = count_eq(f, v, n);
        let cv = count_lt(f, v, n);
        lemma_below_sum_bound(f, v);
        let p = pow2(cv);
        lemma_succ_le_pow2(m);
        lemma_pow2_adds(cv, m);
        assert(m * p + p <= pow2(m) * p) by (nonlinear_arith)
            requires m + 1 <= pow2(m), p >= 0;
    }
}

proof fn lemma_rank_prefix(f: Seq<u64>, n: int)
    requires
        0 <= n <= f.len() <= MAX_RANKED_POPULATION,
    ensures
        weight_prefix(rank_weights_of(f), n) == 2 * below_sum(f, u64::MAX as int + 1, n),
    decreases n,
{
    if n > 0 {
        lemma_rank_prefix(f, n - 1);
        let k = n - 1;
        lemma_count_below_excludes(f, k, f.len() as int);
        lemma_count_lt_matches(f, f[k], f.len() as int);
        let r = rank_of(f, k);
        lemma_pow2_unfold(r);
        lemma2_to64();
        lemma2_to64_rest();
        lemma_pow2_adds(64, 63);
        if r < 127 {
            lemma_pow2_strictly_increases(r, 127);
        }
    }
}

proof fn lemma_rank_total(f: Seq<u64>)
    requires
        0 < f.len() <= MAX_RANKED_POPULATION,
    ensures
        weight_total(rank_weights_of(f)) <= u128::MAX,
        weight_total(rank_weights_of(f)) > 0,
{
    let n = f.len() as int;
    let big = u64::MAX as int + 1;
    lemma_rank_prefix(f, n);
    lemma_below_sum_bound(f, big);
    lemma_count_lt_bound(f, big, n);
    lemma2_to64();
    lemma2_to64_rest();
    lemma_pow2_adds(64, 63);
    if count_lt(f, big, n) < 127 {
        lemma_pow2_strictly_increases(count_lt(f, big, n), 127);
    }
    lemma_max_below(f, big, n);
    assert((f[0] as int) < big);
    assert(count_lt(f, big, n) > 0) by {
        lemma_count_lt_pos(f, big, n);
    }
    assert(below_sum(f, big, n) > 0) by {
        lemma_below_sum_pos(f, big, n);
    }
}

proof fn lemma_count_lt_pos(f: Seq<u64>, y: int, n: int)
    requires
        0 < n <= f.len(),
        forall|i: int| 0 <= i < f.len() ==> (f[i] as int) < y,
    ensures
        count_lt(f, y, n) > 0,
    decreases n,
{
    if n > 1 {
        lemma_count_lt_pos(f, y, n - 1);
    }
}

proof fn lemma_below_sum_pos(f: Seq<u64>, y: int, n: int)
    requires
        0 < n <= f.len(),
        forall|i: int| 0 <= i < f.len() ==> (f[i] as int) < y,
    ensures
        below_sum(f, y, n) > 0,
    decreases n,
{
    lemma_pow2_pos(count_lt(f, f[n - 1] as int, f.len() as int));
    if n > 1 {
        lemma_below_sum_pos(f, y, n - 1);
    }
}

/// Computes `2` to the power `k`.
fn pow2_u128(k: u32) -> (r: u128)
    requires
        k <= MAX_RANKED_POPULATION,
    ensures
        r == pow2(k as nat),
{
    proof {
        lemma2_to64();
        lemma2_to64_rest();
        lemma_pow2_adds(64, 63);
    }
    let mut w: u128 = 1;
    let mut j: u32 = 0;
    while j < k
        invariant
            j <= k <= MAX_RANKED_POPULATION,
            w == pow2(j as nat),
            pow2(127) == 0x8000_0000_0000_0000_0000_0000_0000_0000,
        decreases k - j,
    {
        proof {
            lemma_pow2_unfold((j + 1) as nat);
            if j + 1 < 127 {
                lemma_pow2_strictly_increases((j + 1) as nat, 127);
            }
        }
        w = w * 2;
        j = j + 1;
    }
    w
}

/// The rank-based weight of each member: two to the power of its rank.
pub fn rank_weights(f: &Vec<u64>) -> (r: Vec<u128>)
    requires
        f@.len() <= MAX_RANKED_POPULATION,
    ensures
        r@ == rank_weights_of(f@),
{
    let mut out: Vec<u128> = Vec::new();
    let mut i: usize = 0;
    while i < f.len()
        invariant
            i <= f@.len() <= MAX_RANKED_POPULATION,
            out@ =~= rank_weights_of(f@).subrange(0, i as int),
        decreases f@.len() - i,
    {
        let x = f[i];
        let mut below: u32 = 0;
        let mut j: usize = 0;
        while j < f.len()
            invariant
                i < f@.len() <= MAX_RANKED_POPULATION,
                j <= f@.len(),
                x == f@[i as int],
                below == count_below(f@, x, j as int),
                below <= j,
            decreases f@.len() - j,
        {
            if f[j] < x {
                below = below + 1;
            }
            j = j + 1;
        }
        proof {
            lemma_count_below_excludes(f@, i as int, f@.len() as int);
        }
        out.push(pow2_u128(below + 1));
        i = i + 1;
    }
    out
}

/// Fitness-proportionate weights of each member.
pub fn fitness_weights(f: &Vec<u64>) -> (r: Vec<u128>)
    ensures
        r@ == fitness_weights_of(f@),
{
    let mut out: Vec<u128> = Vec::new();
    let mut i: usize = 0;
    while i < f.len()
        invariant
            i <= f@.len(),
            out@ =~= fitness_weights_of(f@).subrange(0, i as int),
        decreases f@.len() - i,
    {
        out.push(f[i] as u128);
        i = i + 1;
    }
    out
}

/// A way of choosing one parent from a population.
pub trait SelectionMethod {
    /// Whether the method takes a population of `len` members.
    spec fn admits(&self, len: nat) -> bool;

    /// Whether the method may choose member `index` of a population with
    /// the given fitness values: for weighted methods, whether the member
    /// owns a non-empty stretch of the draws below the total weight.
    spec fn may_choose(&self, fitness: Seq<u64>, index: int) -> bool;

    /// Chooses the index of one member of a non-empty population.
    fn select<I: Individual>(&self, rng: &mut ChaCha8Rng, population: &Vec<I>) -> (r: usize)
        requires
            population@.len() > 0,
            self.admits(population@.len()),
        ensures
            r < population@.len(),
            self.may_choose(fitness_seq(population@), r as int),
    ;
}

/// Fitness-proportionate ("roulette wheel") selection; uniform when every
/// fitness is zero.
#[derive(Clone, Copy, Debug, Default)]
pub struct RouletteWheelSelection;

/// Whether any weight is positive, that is whether the total is.
fn total_positive(w: &Vec<u128>) -> (r: bool)
    ensures
        r == (weight_total(w@) > 0),
{
    let mut i: usize = 0;
    while i < w.len()
        invariant
            i <= w@.len(),
            weight_prefix(w@, i as int) == 0,
        decreases w@.len() - i,
    {
        if w[i] > 0 {
            proof {
                lemma_prefix_monotone(w@, i as int + 1, w@.len() as int);
            }
            return true;
        }
        i = i + 1;
    }
    false
}

impl SelectionMethod for RouletteWheelSelection {
    open spec fn admits(&self, len: nat) -> bool {
        true
    }

    open spec fn may_choose(&self, fitness: Seq<u64>, index: int) -> bool {
        weight_total(fitness_weights_of(fitness)) > 0 ==> fitness[index] > 0
    }

    fn select<I: Individual>(&self, rng: &mut ChaCha8Rng, population: &Vec<I>) -> (r: usize) {
        let f = fitnesses(population);
        let w = fitness_weights(&f);
        proof {
            lemma_prefix_bounded(w@, w@.len() as int, u64::MAX as int);
        }
        let len = w.len();
        assert(u64::MAX as int * len <= u128::MAX) by (nonlinear_arith)
            requires len <= usize::MAX;
        if total_positive(&w) {
            let r = draw_weighted(rng, &w);
            assert(weight_prefix(w@, r as int + 1) == weight_prefix(w@, r as int) + w@[r as int]);
            r
        } else {
            draw_below(rng, f.len() as u64) as usize
        }
    }
}

/// Rank-based selection: members sorted by fitness are weighted by two to
/// the power of their rank, the least fit having rank one; members of equal
/// fitness share the rank of the first of them.
#[derive(Clone, Copy, Debug, Default)]
pub struct RankBasedSelection;

impl SelectionMethod for RankBasedSelection {
    open spec fn admits(&self, len: nat) -> bool {
        len <= MAX_RANKED_POPULATION
    }

    open spec fn may_choose(&self, fitness: Seq<u64>, index: int) -> bool {
        &&& weight_prefix(rank_weights_of(fitness), index) < weight_prefix(rank_weights_of(fitness), index + 1)
        &&& weight_prefix(rank_weights_of(fitness), index + 1) <= weight_total(rank_weights_of(fitness))
    }

    fn select<I: Individual>(&self, rng: &mut ChaCha8Rng, population: &Vec<I>) -> (r: usize) {
        let f = fitnesses(population);
        let w = rank_weights(&f);
        proof {
            lemma_rank_total(f@);
        }
        let r = draw_weighted(rng, &w);
        proof {
            lemma_prefix_monotone(rank_weights_of(f@), r as int + 1, f@.len() as int);
        }
        r
    }
}

proof fn lemma_count_below_monotone(f: Seq<u64>, i: int, y: u64, n: int)
    requires
        0 <= i < f.len(),
        0 <= n <= f.len(),
        f[i] <= y,
    ensures
        count_below(f, f[i], n) + (if f[i] < y && i < n { 1int } else { 0int }) <= count_below(f, y, n),
    decreases n,
{
    if n > 0 {
        lemma_count_below_monotone(f, i, y, n - 1);
    }
}

/// Rank-based weights follow fitness: a fitter member weighs at least
/// twice as much, and members of equal fitness weigh the same.
pub proof fn lemma_rank_weights_follow_fitness(f: Seq<u64>, i: int, j: int)
    requires
        0 <= i < f.len(),
        0 <= j < f.len(),
    ensures
        f[i] == f[j] ==> rank_of(f, i) == rank_of(f, j),
        f[i] < f[j] ==> rank_of(f, i) < rank_of(f, j),
        f[i] < f[j] ==> 2 * pow2(rank_of(f, i)) <= pow2(rank_of(f, j)),
{
    if f[i] < f[j] {
        lemma_count_below_monotone(f, i, f[j], f.len() as int);
        let a = rank_of(f, i);
        let b = rank_of(f, j);
        lemma_pow2_unfold((a + 1) as nat);
        if a + 1 < b {
            lemma_pow2_strictly_increases((a + 1) as nat, b);
        }
    }
}

/// Roulette-wheel shares follow fitness: of the draws below the total
/// fitness, exactly as many pick a member as its fitness.
pub proof fn lemma_roulette_share(f: Seq<u64>, i: int)
    requires
        0 <= i < f.len(),
    ensures
        weight_prefix(fitness_weights_of(f), i + 1) - weight_prefix(fitness_weights_of(f), i) == f[i],
{
}

} // verus!
