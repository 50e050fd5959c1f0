//! Randomness for the engine, drawn from `rand`'s seedable standard
//! generator.  The engine only ever needs a draw from an integer range and a
//! one-time shuffle of the word pool; both are trusted wrappers whose
//! contracts state no more than `rand` documents of every outcome.

use vstd::prelude::*;

use rand::RngExt;
use rand::SeedableRng;
use rand::seq::SliceRandom;

verus! {

/// Declares `rand`'s seedable standard generator as an opaque type, so
/// that the engine can hold one and pass it to the wrappers below.
#[verifier::external_type_specification]
#[verifier::external_body]
pub struct ExStdRng(rand::rngs::StdRng);

/// Relies on `SeedableRng::seed_from_u64`: builds a generator from a word of
/// seed material.  Nothing is stated of the stream it will produce.
#[verifier::external_body]
pub(crate) fn seeded_rng(seed: u64) -> rand::rngs::StdRng {
    rand::rngs::StdRng::seed_from_u64(seed)
}

/// Relies on `RngExt::random_range` over `lo..=hi`: returns a value of the
/// range, and panics only on an empty range, which the precondition rules
/// out.
#[verifier::external_body]
pub(crate) fn rand_in_range(rng: &mut rand::rngs::StdRng, lo: u32, hi: u32) -> (r: u32)
    requires
        lo <= hi,
    ensures
        lo <= r <= hi,
{
    rng.random_range(lo..=hi)
}

/// Relies on `SliceRandom::shuffle`: permutes the slice in place by swaps,
/// so the length and the multiset of elements are kept.
#[verifier::external_body]
pub(crate) fn shuffle_in_place(rng: &mut rand::rngs::StdRng, v: &mut Vec<String>)
    ensures
        final(v)@.len() == old(v)@.len(),
        final(v).deep_view().to_multiset() == old(v).deep_view().to_multiset(),
{
    v.shuffle(rng)
}

/// A random spawn column: a value drawn uniformly from `[1, max)`.
pub fn rand_pos(rng: &mut rand::rngs::StdRng, max: u32) -> (r: u32)
    requires
        max >= 2,
    ensures
        1 <= r < max,
{
    rand_in_range(rng, 1, max - 1)
}

} // verus!
