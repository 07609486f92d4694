use vstd::prelude::*;

verus! {

#[verifier::external_type_specification]
#[verifier::external_body]
pub struct ExStdRng(rand::rngs::StdRng);

/// Relies on rand's `SeedableRng::seed_from_u64` for `StdRng`: builds a
/// pseudo-random generator whose draw stream is determined by the seed, so
/// runs are reproducible.
#[verifier::external_body]
pub(crate) fn rng_from_seed(seed: u64) -> rand::rngs::StdRng {
    <rand::rngs::StdRng as rand::SeedableRng>::seed_from_u64(seed)
}

/// Relies on rand's `Rng::gen_ratio`: one Bernoulli draw that is true with
/// probability `num / den`. Its source returns an error (here: a panic) only
/// when `den == 0` or `num > den`, always samples false when `num == 0`, and
/// always samples true when `num == den`.
#[verifier::external_body]
pub(crate) fn bernoulli(rng: &mut rand::rngs::StdRng, num: u32, den: u32) -> (r: bool)
    requires
        1 <= den,
        num <= den,
    ensures
        num == 0 ==> !r,
        num == den ==> r,
{
    rand::Rng::gen_ratio(rng, num, den)
}

} // verus!
