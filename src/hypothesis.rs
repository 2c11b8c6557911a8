//! What a learner believes about the target grammar.

use vstd::prelude::*;
use crate::grammar::Grammar;

verus! {

/// A learner's belief about the target grammar.
pub trait Hypothesis {}

/// A belief in exactly one grammar.
#[derive(Clone, Copy, Debug, PartialEq, Eq, Structural)]
pub struct SimpleHypothesis {
    pub grammar: Grammar,
}

impl Hypothesis for SimpleHypothesis {}

} // verus!
