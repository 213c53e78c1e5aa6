use vstd::prelude::*;

verus! {

/// Declares rand's standard generator so a track can own one; Verus treats
/// its values as opaque.
#[verifier::external_type_specification]
#[verifier::external_body]
pub struct ExStdRng(rand::rngs::StdRng);

/// Relies on rand::SeedableRng::seed_from_u64: builds a generator
/// deterministically from the seed, so seeded runs are reproducible. Nothing
/// is assumed about the values it will produce.
#[verifier::external_body]
pub(crate) fn rng_from_seed(seed: u64) -> rand::rngs::StdRng {
    <rand::rngs::StdRng as rand::SeedableRng>::seed_from_u64(seed)
}

/// Relies on rand::Rng::gen_range on a half-open integer range: it returns a
/// value drawn uniformly from `[lo, hi)` and panics only on an empty range,
/// which the precondition rules out. Only membership in the range is assumed;
/// no two calls are assumed to agree.
#[verifier::external_body]
pub(crate) fn rng_gen_range(rng: &mut rand::rngs::StdRng, lo: i32, hi: i32) -> (r: i32)
    requires
        lo < hi,
    ensures
        lo <= r < hi,
{
    rand::Rng::gen_range(rng, lo..hi)
}

} // verus!
