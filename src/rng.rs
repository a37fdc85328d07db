//! The random source that every stochastic operation draws from.
use crate::selection::{weight_prefix, weight_total};
use rand::distributions::{Distribution, WeightedIndex};
use rand::Rng;
use rand_chacha::ChaCha8Rng;
use vstd::prelude::*;

verus! {

#[verifier::external_type_specification]
#[verifier::external_body]
pub struct ExChaCha8Rng(ChaCha8Rng);

/// Relies on rand::Rng::gen_range over `0..n`: a uniform draw below `n`
/// (it panics on an empty range, which `requires` excludes).
#[verifier::external_body]
fn draw_below_wide(rng: &mut ChaCha8Rng, n: u128) -> (r: u128)
    requires
        n > 0,
    ensures
        r < n,
{
    rng.gen_range(0..n)
}

/// A uniform draw below `n`.
pub(crate) fn draw_below(rng: &mut ChaCha8Rng, n: u64) -> (r: u64)
    requires
        n > 0,
    ensures
        r < n,
{
    draw_below_wide(rng, n as u128) as u64
}

/// A uniform draw in the closed range `[lo, hi]`.
pub(crate) fn draw_between(rng: &mut ChaCha8Rng, lo: i64, hi: i64) -> (r: i64)
    requires
        lo <= hi,
    ensures
        lo <= r <= hi,
{
    let width = (hi as i128 - lo as i128 + 1) as u128;
    let d = draw_below_wide(rng, width);
    (lo as i128 + d as i128) as i64
}

/// Relies on rand::distributions::WeightedIndex over 128-bit weights:
/// `new` accepts a non-empty list with a positive total (whose sum must not
/// overflow, which `requires` ensures), and `sample` draws below the total
/// and returns the index whose stretch of the cumulative weights holds the
/// draw.
#[verifier::external_body]
pub(crate) fn draw_weighted(rng: &mut ChaCha8Rng, weights: &Vec<u128>) -> (r: usize)
    requires
        weights@.len() > 0,
        0 < weight_total(weights@) <= u128::MAX,
    ensures
        r < weights@.len(),
        weight_prefix(weights@, r as int) < weight_prefix(weights@, r as int + 1),
{
    match WeightedIndex::new(weights.iter()) {
        Ok(distribution) => distribution.sample(rng),
        Err(_) => 0,
    }
}

/// Relies on rand::Rng::gen for `bool`: a fair coin.
#[verifier::external_body]
pub(crate) fn draw_coin(rng: &mut ChaCha8Rng) -> (r: bool) {
    rng.gen::<bool>()
}

} // verus!
