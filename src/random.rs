//! The randomness the protocol draws: nonces, challenge edges and colour
//! permutations all come from rand's thread-local generator, which is
//! seeded from the operating system. `rand::rng` panics only when the
//! operating system cannot provide that seed, a failure of the machine and
//! of no input; nothing here can rule it out.
use vstd::prelude::*;

verus! {

/// Relies on `rand::rng` and `RngCore::fill_bytes`: a vector of `len`
/// random bytes.
#[verifier::external_body]
pub(crate) fn random_bytes(len: usize) -> (r: Vec<u8>)
    ensures
        r@.len() == len,
{
    let mut bytes = vec![0u8; len];
    rand::RngCore::fill_bytes(&mut rand::rng(), &mut bytes);
    bytes
}

/// Relies on `rand::rng` and `Rng::random_range`, which draws uniformly from
/// `0..bound` and panics only on an empty range.
#[verifier::external_body]
pub(crate) fn random_below(bound: usize) -> (r: usize)
    requires
        bound > 0,
    ensures
        r < bound,
{
    rand::Rng::random_range(&mut rand::rng(), 0..bound)
}

/// Relies on `rand::rng` and `SliceRandom::shuffle`, which reorders the
/// items in place: the same items come back, in an order drawn uniformly.
#[verifier::external_body]
pub(crate) fn shuffle(items: &mut Vec<u8>)
    ensures
        final(items)@.to_multiset() == old(items)@.to_multiset(),
{
    rand::seq::SliceRandom::shuffle(items.as_mut_slice(), &mut rand::rng());
}

} // verus!
