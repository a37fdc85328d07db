//! Fitness statistics of a population.
use vstd::prelude::*;

verus! {

/// Sum of the first `n` values.
pub open spec fn sum_of(f: Seq<u64>, n: int) -> nat
    decreases n,
{
    if n <= 0 {
        0
    } else {
        sum_of(f, n - 1) + f[n - 1] as nat
    }
}

/// Smallest of the first `n` values (`u64::MAX` for none).
pub open spec fn min_of(f: Seq<u64>, n: int) -> u64
    decreases n,
{
    if n <= 0 {
        u64::MAX
    } else if f[n - 1] < min_of(f, n - 1) {
        f[n - 1]
    } else {
        min_of(f, n - 1)
    }
}

/// Largest of the first `n` values (0 for none).
pub open spec fn max_of(f: Seq<u64>, n: int) -> u64
    decreases n,
{
    if n <= 0 {
        0
    } else if f[n - 1] > max_of(f, n - 1) {
        f[n - 1]
    } else {
        max_of(f, n - 1)
    }
}

/// Smallest, largest and mean (rounded down) fitness of a population.
#[derive(Clone, Copy, Debug, PartialEq, Eq, Structural)]
pub struct FitnessStats {
    pub min_fitness: u64,
    pub max_fitness: u64,
    pub avg_fitness: u64,
}

/// The statistics of a non-empty list of fitness values; all zero for none.
pub open spec fn stats_of(f: Seq<u64>) -> FitnessStats {
    if f.len() == 0 {
        FitnessStats { min_fitness: 0, max_fitness: 0, avg_fitness: 0 }
    } else {
        FitnessStats {
            min_fitness: min_of(f, f.len() as int),
            max_fitness: max_of(f, f.len() as int),
            avg_fitness: (sum_of(f, f.len() as int) / f.len()) as u64,
        }
    }
}

proof fn lemma_bounds(f: Seq<u64>, n: int)
    requires
        0 < n <= f.len(),
    ensures
        min_of(f, n) as int * n <= sum_of(f, n) <= max_of(f, n) as int * n,
        min_of(f, n) <= max_of(f, n),
        sum_of(f, n) <= u64::MAX as int * n,
    decreases n,
{
    if n > 1 {
        lemma_bounds(f, n - 1);
    }
    let m0 = min_of(f, n - 1) as int;
    let m1 = min_of(f, n) as int;
    let x0 = max_of(f, n - 1) as int;
    let x1 = max_of(f, n) as int;
    let s0 = sum_of(f, n - 1) as int;
    let v = f[n - 1] as int;
    let big = u64::MAX as int;
    assert(m0 * (n - 1) <= s0 <= x0 * (n - 1) && s0 <= big * (n - 1));
    assert(sum_of(f, n) == s0 + v);
    assert(m1 <= m0 && m1 <= v && x1 >= x0 && x1 >= v);
    assert(m1 * (n - 1) + m1 <= s0 + v <= x1 * (n - 1) + x1) by (nonlinear_arith)
        requires m1 <= m0, m1 <= v, x0 <= x1, v <= x1, n >= 1,
            m0 * (n - 1) <= s0 <= x0 * (n - 1);
    assert(s0 + v <= big * (n - 1) + big) by (nonlinear_arith)
        requires s0 <= big * (n - 1), v <= big;
    assert(m1 * n == m1 * (n - 1) + m1) by (nonlinear_arith);
    assert(x1 * n == x1 * (n - 1) + x1) by (nonlinear_arith);
    assert(big * n == big * (n - 1) + big) by (nonlinear_arith);
    if n == 1 {
        assert(m1 == v && x1 == v);
    } else {
        assert(m0 <= x0);
    }
}

/// The mean of a non-empty population lies between its least and greatest
/// fitness.
pub proof fn lemma_stats_ordered(f: Seq<u64>)
    ensures
        stats_of(f).min_fitness <= stats_of(f).avg_fitness <= stats_of(f).max_fitness,
{
    if f.len() > 0 {
        let n = f.len() as int;
        lemma_bounds(f, n);
        let s = sum_of(f, n) as int;
        let lo = min_of(f, n) as int;
        let hi = max_of(f, n) as int;
        assert(lo <= s / n <= hi) by (nonlinear_arith)
            requires lo * n <= s <= hi * n, n > 0;
    }
}

/// Computes the statistics of a list of fitness values.
pub fn compute_stats(f: &Vec<u64>) -> (r: FitnessStats)
    ensures
        r == stats_of(f@),
{
    if f.len() == 0 {
        return FitnessStats { min_fitness: 0, max_fitness: 0, avg_fitness: 0 };
    }
    let mut mn: u64 = u64::MAX;
    let mut mx: u64 = 0;
    let mut sum: u128 = 0;
    let mut i: usize = 0;
    while i < f.len()
        invariant
            i <= f@.len(),
            f@.len() <= usize::MAX,
            mn == min_of(f@, i as int),
            mx == max_of(f@, i as int),
            sum as int == sum_of(f@, i as int),
            sum as int <= u64::MAX as int * i,
        decreases f@.len() - i,
    {
        proof {
            lemma_bounds(f@, i + 1);
        }
        if f[i] < mn {
            mn = f[i];
        }
        if f[i] > mx {
            mx = f[i];
        }
        let x = f[i];
        assert(sum + x <= u64::MAX as int * (i + 1)) by (nonlinear_arith)
            requires sum <= u64::MAX as int * i, x <= u64::MAX;
        assert(u64::MAX as int * (i + 1) <= u128::MAX) by (nonlinear_arith)
            requires i < usize::MAX;
        sum = sum + f[i] as u128;
        i = i + 1;
    }
    let n = f.len() as u128;
    proof {
        lemma_stats_ordered(f@);
    }
    FitnessStats { min_fitness: mn, max_fitness: mx, avg_fitness: (sum / n) as u64 }
}

} // verus!
