use rand::rngs::ThreadRng;
use rand::seq::SliceRandom;
use rand::Rng;
use vstd::prelude::*;

verus! {

/// The thread-local generator of `rand`; Verus sees nothing inside it.
#[verifier::external_type_specification]
#[verifier::external_body]
pub struct ExThreadRng(ThreadRng);

/// `rand::thread_rng`: a handle to this thread's generator. Nothing is stated of it.
#[verifier::external_body]
pub(crate) fn thread_rng() -> ThreadRng {
    rand::thread_rng()
}

/// `Rng::gen_range` on the half-open range `lo..hi`, which panics on an empty range.
/// Claimed: the value lies in the range. Which value comes out is left to chance.
#[verifier::external_body]
pub(crate) fn gen_range(rng: &mut ThreadRng, lo: i32, hi: i32) -> (r: i32)
    requires
        lo < hi,
    ensures
        lo <= r < hi,
{
    rng.gen_range(lo..hi)
}

/// `Rng::gen_ratio`: true with probability `numerator / denominator`; panics when the
/// denominator is 0 or below the numerator. Claimed, from `Bernoulli::from_ratio` and
/// `Bernoulli::sample`: a zero numerator always gives false and a numerator equal to the
/// denominator always gives true. Other outcomes are left to chance.
#[verifier::external_body]
pub(crate) fn gen_ratio(rng: &mut ThreadRng, numerator: u32, denominator: u32) -> (b: bool)
    requires
        0 < denominator,
        numerator <= denominator,
    ensures
        numerator == 0 ==> !b,
        numerator == denominator ==> b,
{
    rng.gen_ratio(numerator, denominator)
}

/// `SliceRandom::shuffle` on the vector's slice: the elements are permuted in place.
/// Claimed: the result holds the same elements with the same multiplicities. The order is
/// left to chance.
#[verifier::external_body]
pub(crate) fn shuffle<T>(v: &mut Vec<T>, rng: &mut ThreadRng)
    ensures
        final(v)@.to_multiset() == old(v)@.to_multiset(),
        final(v)@.len() == old(v)@.len(),
{
    v.as_mut_slice().shuffle(rng)
}

} // verus!
