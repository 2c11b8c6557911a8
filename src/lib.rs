//! Simulation kernel for parametric language acquisition on the COLAG domain:
//! grammar bits, the language and trigger tables, surface-form queries,
//! the speaker and the symbolic learners.

pub mod grammar;
pub mod sentence;
pub mod triggers;
pub mod domain;
mod random;
pub mod cues;
pub mod hypothesis;
pub mod learner;
pub mod speaker;
