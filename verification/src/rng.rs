//! Randomness, kept behind trusted wrappers so that every caller is
//! verified for every outcome the generator can produce.

use vstd::prelude::*;

use crate::position::Position;
use rand::seq::SliceRandom;
use rand::Rng;

verus! {

/// Relies on rand's `Rng::gen_range` over the thread-local generator:
/// for a non-empty range `0..len` it returns a value of that range.
/// Nothing more is promised of which value comes back.
#[verifier::external_body]
pub(crate) fn random_index(len: usize) -> (r: usize)
    requires
        len > 0,
    ensures
        r < len,
{
    rand::thread_rng().gen_range(0..len)
}

/// Relies on rand's `SliceRandom::shuffle` over the thread-local
/// generator: it permutes the slice in place, so the elements after
/// the call are exactly the elements before it, in some order.
#[verifier::external_body]
pub(crate) fn shuffle_positions(v: &mut Vec<Position>)
    ensures
        final(v)@.to_multiset() == old(v)@.to_multiset(),
{
    v.shuffle(&mut rand::thread_rng())
}

} // verus!
