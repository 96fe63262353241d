//! The random source of both search algorithms: a seedable generator from
//! the rand crate, drawn from through two trusted wrappers. Nothing is
//! assumed of the values drawn beyond the ranges stated here, so every
//! caller is verified for every outcome of a draw.
use vstd::prelude::*;
use crate::kmer::sum128;

verus! {

/// The rand crate's seedable standard generator, opaque to verification.
#[verifier::external_type_specification]
#[verifier::external_body]
pub struct ExStdRng(rand::rngs::StdRng);

/// Relies on rand::Rng::gen_range over the range 0..n: it panics only on
/// an empty range, and returns a value strictly below n.
#[verifier::external_body]
pub(crate) fn gen_index(rng: &mut rand::rngs::StdRng, n: usize) -> (r: usize)
    requires
        n >= 1,
    ensures
        r < n,
{
    rand::Rng::gen_range(rng, 0..n)
}

/// Relies on rand::distributions::WeightedIndex::new and rand::Rng::sample:
/// given at least one weight, a positive total that does not overflow the
/// weight type (the type is unsigned, so no weight is negative), `new`
/// succeeds and the draw returns an index whose weight is positive.
#[verifier::external_body]
pub(crate) fn sample_weighted(rng: &mut rand::rngs::StdRng, weights: &Vec<u128>) -> (r: usize)
    requires
        weights@.len() >= 1,
        exists|i: int| 0 <= i < weights@.len() && weights@[i] > 0,
        sum128(weights@) <= u128::MAX,
    ensures
        r < weights@.len(),
        weights@[r as int] > 0,
{
    let dist = rand::distributions::WeightedIndex::new(weights).unwrap();
    rand::Rng::sample(rng, &dist)
}

} // verus!
