//! The random source threaded through every operator, and the few draws
//! that the operators take from it.
use rand::rngs::StdRng;
use rand::seq::SliceRandom;
use rand::{Rng, RngCore};
use vstd::prelude::*;

verus! {

#[verifier::external_type_specification]
#[verifier::external_body]
pub struct ExStdRng(StdRng);

/// Relies on `RngCore::next_u64` of `StdRng`; any `u64` may come back.
#[verifier::external_body]
fn next_u64(rng: &mut StdRng) -> (r: u64) {
    rng.next_u64()
}

/// A draw in `[0, n)`, taken as the remainder of a full-width draw.
pub fn random_below(rng: &mut StdRng, n: usize) -> (r: usize)
    requires
        n > 0,
    ensures
        r < n,
{
    let x = next_u64(rng);
    (x % (n as u64)) as usize
}

/// A draw in `[0, n)` over the full `u128` range, from two full-width draws.
pub fn random_below_wide(rng: &mut StdRng, n: u128) -> (r: u128)
    requires
        n > 0,
    ensures
        r < n,
{
    let hi = next_u64(rng) as u128;
    let lo = next_u64(rng) as u128;
    let x = hi * 0x1_0000_0000_0000_0000u128 + lo;
    x % n
}

/// Relies on `Rng::gen::<bool>` of `StdRng`: a fair coin; either value may
/// come back.
#[verifier::external_body]
pub(crate) fn random_bool(rng: &mut StdRng) -> (r: bool) {
    rng.gen::<bool>()
}

/// Relies on `SliceRandom::choose`: on a non-empty slice it returns one of
/// its elements.
#[verifier::external_body]
pub(crate) fn choose_from<G: Copy>(rng: &mut StdRng, pool: &Vec<G>) -> (r: G)
    requires
        pool.len() > 0,
    ensures
        pool@.contains(r),
{
    *pool.choose(rng).unwrap()
}

/// Relies on `SliceRandom::shuffle` on `v[start..end]`: it reorders that range
/// by swapping its elements among themselves, and touches nothing outside it.
#[verifier::external_body]
pub(crate) fn shuffle_range<G>(rng: &mut StdRng, v: &mut Vec<G>, start: usize, end: usize)
    requires
        start <= end <= old(v).len(),
    ensures
        final(v)@.len() == old(v)@.len(),
        final(v)@.subrange(0, start as int) == old(v)@.subrange(0, start as int),
        final(v)@.subrange(end as int, old(v)@.len() as int) == old(v)@.subrange(
            end as int,
            old(v)@.len() as int,
        ),
        final(v)@.subrange(start as int, end as int).to_multiset() == old(v)@.subrange(
            start as int,
            end as int,
        ).to_multiset(),
{
    v[start..end].shuffle(rng)
}

} // verus!
