//! The source of randomness for tie-breaks.
//!
//! The generator is a parameter of every function that draws from it, so a
//! caller decides whether it is seeded from entropy or from a fixed seed.

use rand::seq::SliceRandom;
use vstd::prelude::*;

verus! {

/// `rand::rngs::StdRng`, the generator: carried through, never looked into.
#[verifier::external_type_specification]
#[verifier::external_body]
pub struct ExStdRng(rand::rngs::StdRng);

/// `rand::seq::SliceRandom::choose` on the slice of `moves`, with
/// `rand::rngs::StdRng` as the generator.
///
/// Trusted, as the crate documents and implements it: the result is `None`
/// for an empty slice, and otherwise one element of the slice. Which element
/// is not stated, and nothing is stated of the generator afterwards.
#[verifier::external_body]
pub(crate) fn choose_move(moves: &[(usize, usize)], rng: &mut rand::rngs::StdRng) -> (picked:
    Option<(usize, usize)>)
    ensures
        moves@.len() == 0 ==> picked is None,
        moves@.len() > 0 ==> picked is Some && moves@.contains(picked->0),
{
    moves.choose(rng).copied()
}

} // verus!
