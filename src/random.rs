//! The pseudo-random generators that the learners and the speaker draw from.

use vstd::prelude::*;
use rand::{Rng, SeedableRng};
use crate::grammar::{Grammar, Sentence};

verus! {

/// The fast xorshift generator of the trigger learner.
#[verifier::external_type_specification]
#[verifier::external_body]
pub struct ExXorShiftRng(rand::XorShiftRng);

/// The Mersenne Twister generator of the speaker.
#[verifier::external_type_specification]
#[verifier::external_body]
pub struct ExMersenneTwister(mersenne_twister::MersenneTwister);

/// Relies on rand::weak_rng: a xorshift generator seeded from the thread's
/// generator.
#[verifier::external_body]
pub(crate) fn new_xorshift() -> rand::XorShiftRng {
    rand::weak_rng()
}

/// Relies on rand::Rng::choose: `None` on an empty slice, otherwise a
/// reference to one of its elements.
#[verifier::external_body]
pub(crate) fn choose_grammar(rng: &mut rand::XorShiftRng, grammars: &Vec<Grammar>) -> (r: Option<Grammar>)
    ensures
        r is None <==> grammars@.len() == 0,
        r matches Some(g) ==> grammars@.contains(g),
{
    rng.choose(grammars.as_slice()).map(|g| *g)
}

/// Relies on rand::Rng::choose: `None` on an empty slice, otherwise a
/// reference to one of its elements.
#[verifier::external_body]
pub(crate) fn choose_sentence(rng: &mut mersenne_twister::MersenneTwister, sentences: &Vec<Sentence>) -> (r: Option<Sentence>)
    ensures
        r is None <==> sentences@.len() == 0,
        r matches Some(s) ==> sentences@.contains(s),
{
    rng.choose(sentences.as_slice()).map(|s| *s)
}

/// Relies on mersenne_twister's SeedableRng<u64>::from_seed: a generator
/// whose stream depends on the seed alone.
#[verifier::external_body]
pub(crate) fn twister_from_seed(seed: u64) -> mersenne_twister::MersenneTwister {
    mersenne_twister::MersenneTwister::from_seed(seed)
}

/// Relies on rand::thread_rng and Rng::next_u64: a seed drawn from the
/// thread's generator.
#[verifier::external_body]
pub(crate) fn fresh_seed() -> u64 {
    rand::thread_rng().next_u64()
}

} // verus!
