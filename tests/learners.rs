use colag_sim::domain::{Colag, Environment};
use colag_sim::learner::{record_activations, relevant, TriggerLearner};
use colag_sim::speaker::UniformRandomSpeaker;
use colag_sim::triggers::{parse_trigger_string, Trigger};

#[test]
fn tla_converges_at_once_when_zero_generates_everything() {
    let rows = vec![(0u16, 1u32, 0u32), (0, 2, 0), (0, 3, 0), (611, 1, 0)];
    let env = Environment { domain: Colag::from_rows(&rows) };
    let mut speaker = UniformRandomSpeaker::with_seed(&env.domain, 0, 42);
    let mut learner = TriggerLearner::new();
    let mut consumed = 0;
    while !learner.converged() {
        let s = speaker.next_sentence();
        learner.learn(&env, &s);
        consumed += 1;
        assert_eq!(learner.guess(), 0);
    }
    assert_eq!(consumed, 1001);
    assert_eq!(learner.theory().grammar, 0);
}

#[test]
fn tla_step_with_given_candidate() {
    let rows = vec![(0u16, 1u32, 0u32), (611, 2, 0), (5, 3, 0)];
    let env = Environment { domain: Colag::from_rows(&rows) };
    let mut learner = TriggerLearner::new();
    learner.learn_from(&env, &1, 611);
    assert_eq!(learner.guess(), 0);
    // Grammar 0 fails on sentence 2; candidate 5 fails too: keep 0.
    learner.learn_from(&env, &2, 5);
    assert_eq!(learner.guess(), 0);
    // Candidate 611 parses sentence 2: adopt it.
    learner.learn_from(&env, &2, 611);
    assert_eq!(learner.guess(), 611);
    assert!(!learner.converged());
}

#[test]
fn tla_learns_a_small_target() {
    let rows = vec![(0u16, 9u32, 0u32), (611, 1, 0), (611, 2, 0), (611, 3, 0), (5, 1, 0), (8, 2, 0)];
    let env = Environment { domain: Colag::from_rows(&rows) };
    let mut speaker = UniformRandomSpeaker::with_seed(&env.domain, 611, 7);
    let mut learner = TriggerLearner::new();
    let mut consumed = 0;
    while consumed < 100_000 && !learner.converged() {
        let s = speaker.next_sentence();
        learner.learn(&env, &s);
        consumed += 1;
    }
    assert!(consumed > 0);
    assert!(learner.converged());
    assert_eq!(learner.guess(), 611);
}

#[test]
fn speaker_draws_from_target_and_is_reproducible() {
    let rows = vec![(611u16, 1u32, 0u32), (611, 2, 0), (611, 3, 0), (5, 4, 0)];
    let d = Colag::from_rows(&rows);
    let mut a = UniformRandomSpeaker::with_seed(&d, 611, 99);
    let mut b = UniformRandomSpeaker::with_seed(&d, 611, 99);
    let mut seen = [false; 4];
    for _ in 0..200 {
        let x = a.next_sentence();
        assert_eq!(x, b.next_sentence());
        assert!((1..=3).contains(&x));
        seen[x as usize] = true;
    }
    assert!(seen[1] && seen[2] && seen[3]);
    let mut c = UniformRandomSpeaker::new(&d, 5);
    assert_eq!(c.next_sentence(), 4);
}

#[test]
fn activations_count_relevant_labels() {
    assert!(relevant(&Trigger::On));
    assert!(relevant(&Trigger::Off));
    assert!(relevant(&Trigger::Ambiguous));
    assert!(!relevant(&Trigger::Irrelevant));
    let v = parse_trigger_string("~1~0~*~~~~~~1").unwrap();
    let mut activated = [0u32; 13];
    record_activations(&mut activated, &v);
    record_activations(&mut activated, &v);
    assert_eq!(activated, [0, 2, 0, 2, 0, 2, 0, 0, 0, 0, 0, 0, 2]);
}
