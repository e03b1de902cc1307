//! The source of randomness: a seeded permuted-congruential generator
//! from the `rand_pcg` crate, reached only through the two trusted
//! wrappers below.  Everything downstream takes the draws as plain
//! fixed-point values, so the rest of the library is verified for
//! every possible draw.

use crate::fixed::SCALE;
use rand::Rng;
use vstd::prelude::*;

verus! {

/// The generator type (rand_pcg's `Mcg128Xsl64`, also known as
/// `pcg64_fast`), declared so that it can be threaded through
/// verified signatures; its inner state stays opaque.
#[verifier::external_type_specification]
#[verifier::external_body]
pub struct ExMcg128Xsl64(rand_pcg::Mcg128Xsl64);

/// Relies on rand_pcg::Mcg128Xsl64::new: it builds a generator whose
/// state is a pure function of the seed, so equal seeds give equal
/// draw sequences.
#[verifier::external_body]
pub fn rng_from_seed(seed: u64) -> rand_pcg::Mcg128Xsl64 {
    rand_pcg::Mcg128Xsl64::new(seed as u128)
}

/// Relies on rand::Rng::gen_range over `0..SCALE`: the draw lies in
/// that half-open range (gen_range panics only on an empty range, and
/// this range is never empty).
#[verifier::external_body]
pub fn rand_unit(rng: &mut rand_pcg::Mcg128Xsl64) -> (r: i64)
    ensures
        0 <= r < SCALE,
{
    rng.gen_range(0i64..65536i64)
}

} // verus!
