//! The speaker: a seeded, uniform, independent sampler over the sentences
//! of a target language.

use vstd::prelude::*;
use crate::domain::Colag;
use crate::grammar::{Grammar, Sentence};
use crate::random::{choose_sentence, fresh_seed, twister_from_seed};

verus! {

/// Draws sentences of one target language uniformly and independently.
pub struct UniformRandomSpeaker {
    language: Grammar,
    sentences: Vec<Sentence>,
    rng: mersenne_twister::MersenneTwister,
}

impl UniformRandomSpeaker {
    /// The target grammar.
    pub closed spec fn target(&self) -> Grammar {
        self.language
    }

    /// The sentences the speaker draws from.
    pub closed spec fn pool(&self) -> Seq<Sentence> {
        self.sentences@
    }

    /// A speaker of `language`, whose stream is fixed by `seed`.
    pub fn with_seed(domain: &Colag, language: Grammar, seed: u64) -> (r: UniformRandomSpeaker)
        requires
            domain.wf(),
            domain.legal().contains(language),
        ensures
            r.target() == language,
            r.pool().to_set() == domain.languages()[language],
            r.pool().no_duplicates(),
            r.pool().len() > 0,
    {
        let source = domain.language_vec(&language).unwrap();
        let mut sentences: Vec<Sentence> = Vec::new();
        let mut i: usize = 0;
        while i < source.len()
            invariant
                i <= source@.len(),
                sentences@ == source@.take(i as int),
            decreases source@.len() - i,
        {
            sentences.push(source[i]);
            assert(source@.take(i + 1) =~= source@.take(i as int).push(source@[i as int]));
            i = i + 1;
        }
        assert(source@.take(i as int) =~= source@);
        UniformRandomSpeaker { language, sentences, rng: twister_from_seed(seed) }
    }

    /// A speaker of `language`, seeded from the thread's generator.
    pub fn new(domain: &Colag, language: Grammar) -> (r: UniformRandomSpeaker)
        requires
            domain.wf(),
            domain.legal().contains(language),
        ensures
            r.target() == language,
            r.pool().to_set() == domain.languages()[language],
            r.pool().no_duplicates(),
            r.pool().len() > 0,
    {
        UniformRandomSpeaker::with_seed(domain, language, fresh_seed())
    }

    /// The next sentence of the stream: one of the target language's.
    pub fn next_sentence(&mut self) -> (r: Sentence)
        requires
            old(self).pool().len() > 0,
        ensures
            final(self).target() == old(self).target(),
            final(self).pool() == old(self).pool(),
            old(self).pool().contains(r),
    {
        match choose_sentence(&mut self.rng, &self.sentences) {
            Some(s) => s,
            None => {
                proof {
                    assert(false);
                }
                0
            },
        }
    }
}

} // verus!
