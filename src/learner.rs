//! The trigger learning algorithm, and the bookkeeping that the relevance
//! variant of the variational learner keeps per parameter.

use vstd::prelude::*;
use crate::domain::{parses_spec, Environment, IllegalGrammar};
use crate::grammar::{Grammar, Sentence, NUM_PARAMS};
use crate::hypothesis::SimpleHypothesis;
use crate::random::new_xorshift;
use crate::triggers::{Trigger, TriggerVec};

verus! {

/// Clean parses in a row after which the trigger learner has converged.
pub const CLEAN_PARSES_TO_CONVERGE: u32 = 1000;

/// Grammar `g` is legal and generates `s`.
pub open spec fn parses_cleanly(m: Map<Grammar, Set<Sentence>>, g: Grammar, s: Sentence) -> bool {
    parses_spec(m, g, s) == Ok::<bool, IllegalGrammar>(true)
}

/// One step of the trigger learner on sentence `s` from grammar `g` with
/// `clean` clean parses in a row: a parse extends the streak (it saturates
/// at the largest `u32`); otherwise the streak resets and the learner
/// switches to `candidate` only if that parses `s`.
pub open spec fn tla_step(
    m: Map<Grammar, Set<Sentence>>,
    g: Grammar,
    clean: u32,
    s: Sentence,
    candidate: Grammar,
) -> (Grammar, u32) {
    if parses_cleanly(m, g, s) {
        (g, if clean < u32::MAX { (clean + 1) as u32 } else { clean })
    } else if parses_cleanly(m, candidate, s) {
        (candidate, 0)
    } else {
        (g, 0)
    }
}

/// The state after the trigger learner has read `sents` in order, drawing
/// `candidates[i]` where step `i` draws.
pub open spec fn tla_run(
    m: Map<Grammar, Set<Sentence>>,
    g: Grammar,
    clean: u32,
    sents: Seq<Sentence>,
    candidates: Seq<Grammar>,
) -> (Grammar, u32)
    recommends
        candidates.len() == sents.len(),
    decreases sents.len(),
{
    if sents.len() == 0 {
        (g, clean)
    } else {
        let (g1, c1) = tla_run(m, g, clean, sents.drop_last(), candidates.drop_last());
        tla_step(m, g1, c1, sents.last(), candidates.last())
    }
}

/// The trigger learning algorithm: a single grammar, kept while it parses,
/// replaced greedily by a random legal grammar that parses the failing
/// sentence.
pub struct TriggerLearner {
    hypothesis: SimpleHypothesis,
    clean_parses: u32,
    rng: rand::XorShiftRng,
}

impl TriggerLearner {
    /// The grammar the learner holds.
    pub closed spec fn grammar(&self) -> Grammar {
        self.hypothesis.grammar
    }

    /// The number of sentences in a row that the grammar has parsed.
    pub closed spec fn clean(&self) -> u32 {
        self.clean_parses
    }

    /// A learner at grammar 0 with no clean parses.
    pub fn new() -> (r: TriggerLearner)
        ensures
            r.grammar() == 0,
            r.clean() == 0,
    {
        TriggerLearner { hypothesis: SimpleHypothesis { grammar: 0 }, clean_parses: 0, rng: new_xorshift() }
    }

    /// One step on `sent`, with `candidate` as the grammar drawn if the
    /// current one fails.
    pub fn learn_from(&mut self, env: &Environment, sent: &Sentence, candidate: Grammar)
        ensures
            (final(self).grammar(), final(self).clean()) == tla_step(
                env.domain.languages(),
                old(self).grammar(),
                old(self).clean(),
                *sent,
                candidate,
            ),
    {
        match env.domain.parses(&self.hypothesis.grammar, sent) {
            Ok(true) => {
                self.clean_parses = self.clean_parses.saturating_add(1);
            },
            _ => {
                if let Ok(true) = env.domain.parses(&candidate, sent) {
                    self.hypothesis.grammar = candidate;
                }
                self.clean_parses = 0;
            },
        }
    }

    /// One step on `sent`: a parse extends the streak; otherwise a random
    /// legal grammar is drawn and adopted only if it parses `sent`, and the
    /// streak resets.
    pub fn learn(&mut self, env: &Environment, sent: &Sentence)
        requires
            env.domain.wf(),
            env.domain.legal().len() > 0,
        ensures
            parses_cleanly(env.domain.languages(), old(self).grammar(), *sent) ==> {
                &&& final(self).grammar() == old(self).grammar()
                &&& final(self).clean() == if old(self).clean() < u32::MAX {
                    old(self).clean() + 1
                } else {
                    old(self).clean() as int
                }
            },
            !parses_cleanly(env.domain.languages(), old(self).grammar(), *sent) ==> {
                &&& final(self).clean() == 0
                &&& final(self).grammar() == old(self).grammar() || parses_cleanly(
                    env.domain.languages(),
                    final(self).grammar(),
                    *sent,
                )
            },
    {
        match env.domain.parses(&self.hypothesis.grammar, sent) {
            Ok(true) => {
                self.clean_parses = self.clean_parses.saturating_add(1);
            },
            _ => {
                let candidate = env.domain.random_grammar(&mut self.rng);
                self.learn_from(env, sent, candidate);
            },
        }
    }

    /// Whether the streak of clean parses has passed the threshold.
    pub fn converged(&self) -> (r: bool)
        ensures
            r == (self.clean() > CLEAN_PARSES_TO_CONVERGE),
    {
        self.clean_parses > CLEAN_PARSES_TO_CONVERGE
    }

    /// The grammar the learner holds.
    pub fn guess(&self) -> (r: Grammar)
        ensures
            r == self.grammar(),
    {
        self.hypothesis.grammar
    }

    /// The learner's hypothesis.
    pub fn theory(&self) -> (r: &SimpleHypothesis)
        ensures
            r.grammar == self.grammar(),
    {
        &self.hypothesis
    }
}

/// On a language that grammar 0 generates whole, the trigger learner keeps
/// grammar 0 from the start and its streak counts every sentence, whatever
/// it would draw: it converges after the first threshold-plus-one sentences.
pub proof fn lemma_tla_settled_at_zero(
    m: Map<Grammar, Set<Sentence>>,
    sents: Seq<Sentence>,
    candidates: Seq<Grammar>,
)
    requires
        m.contains_key(0),
        forall|i: int| 0 <= i < sents.len() ==> m[0].contains(#[trigger] sents[i]),
        sents.len() < u32::MAX,
    ensures
        tla_run(m, 0, 0, sents, candidates) == (0u16, sents.len() as u32),
        sents.len() > CLEAN_PARSES_TO_CONVERGE ==> tla_run(m, 0, 0, sents, candidates).1 > CLEAN_PARSES_TO_CONVERGE,
    decreases sents.len(),
{
    if sents.len() > 0 {
        let prev = sents.drop_last();
        assert forall|i: int| 0 <= i < prev.len() implies m[0].contains(#[trigger] prev[i]) by {
            assert(prev[i] == sents[i]);
        }
        lemma_tla_settled_at_zero(m, prev, candidates.drop_last());
        assert(m[0].contains(sents[sents.len() - 1]));
    }
}

/// Whether a trigger label lets a sentence update its parameter at the full
/// rate.
pub open spec fn is_relevant(t: Trigger) -> bool {
    !(t is Irrelevant)
}

/// Whether a trigger label lets a sentence update its parameter at the full
/// rate: `On`, `Off` and `Ambiguous` do, `Irrelevant` does not.
pub fn relevant(t: &Trigger) -> (r: bool)
    ensures
        r == is_relevant(*t),
{
    match t {
        Trigger::On | Trigger::Off | Trigger::Ambiguous => true,
        Trigger::Irrelevant => false,
    }
}

/// Counts one activation for each parameter whose label is relevant.
pub fn record_activations(activated: &mut [u32; NUM_PARAMS], triggers: &TriggerVec)
    requires
        forall|p: int| 0 <= p < NUM_PARAMS ==> old(activated)@[p] < u32::MAX,
    ensures
        forall|p: int| 0 <= p < NUM_PARAMS ==> #[trigger] final(activated)@[p] == old(activated)@[p] + if is_relevant(triggers@[p]) {
            1int
        } else {
            0int
        },
{
    let mut i: usize = 0;
    while i < NUM_PARAMS
        invariant
            i <= NUM_PARAMS,
            forall|p: int| 0 <= p < NUM_PARAMS ==> old(activated)@[p] < u32::MAX,
            forall|p: int| 0 <= p < i ==> #[trigger] activated@[p] == old(activated)@[p] + if is_relevant(triggers@[p]) {
                1int
            } else {
                0int
            },
            forall|p: int| i <= p < NUM_PARAMS ==> #[trigger] activated@[p] == old(activated)@[p],
        decreases NUM_PARAMS - i,
    {
        if relevant(&triggers[i]) {
            activated[i] = activated[i] + 1;
        }
        i = i + 1;
    }
}

} // verus!
