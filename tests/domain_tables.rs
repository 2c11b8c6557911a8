use colag_sim::domain::{Colag, Environment, IllegalGrammar, LoadError};
use colag_sim::sentence::{FeatureVal, Illoc, SurfaceSymbol};
use std::cmp::Ordering;
use colag_sim::triggers::{parse_trigger_string, Trigger, TriggerMap};

fn small_rows() -> Vec<(u16, u32, u32)> {
    vec![(611, 1, 10), (611, 2, 11), (611, 1, 12), (0, 3, 13), (5, 1, 14)]
}

#[test]
fn parses_matches_language_membership() {
    let d = Colag::from_rows(&small_rows());
    assert_eq!(d.parses(&611, &1), Ok(true));
    assert_eq!(d.parses(&611, &3), Ok(false));
    assert_eq!(d.parses(&1, &1), Err(IllegalGrammar { grammar: 1 }));
    let english = d.language(&611).unwrap();
    assert_eq!(english.len(), 2);
    for s in 0..5u32 {
        assert_eq!(d.parses(&611, &s) == Ok(true), english.contains(&s));
    }
    assert!(d.language(&7).is_err());
}

#[test]
fn language_vec_keeps_first_loaded_order_without_repeats() {
    let d = Colag::from_rows(&small_rows());
    assert_eq!(d.language_vec(&611).unwrap(), &vec![1, 2]);
    assert_eq!(d.language_vec(&0).unwrap(), &vec![3]);
    assert_eq!(d.language_vec(&9), Err(IllegalGrammar { grammar: 9 }));
}

#[test]
fn loading_twice_gives_equal_tables() {
    let a = Colag::from_rows(&small_rows());
    let b = Colag::from_rows(&small_rows());
    for g in [0u16, 5, 611, 7] {
        assert_eq!(a.language(&g).ok(), b.language(&g).ok());
    }
}

#[test]
fn calibration_reports_each_failure() {
    let d = Colag::from_rows(&small_rows());
    assert_eq!(d.check_calibration(), Err(LoadError::WrongGrammarCount(3)));
    let mut rows: Vec<(u16, u32, u32)> = Vec::new();
    for g in 0..3072u16 {
        rows.push((g + 1000, 0, 0));
    }
    let d = Colag::from_rows(&rows);
    assert_eq!(d.check_calibration(), Err(LoadError::MissingEnglish));
    let mut rows: Vec<(u16, u32, u32)> = Vec::new();
    for g in 0..3072u16 {
        rows.push((g, 0, 0));
    }
    let d = Colag::from_rows(&rows);
    assert_eq!(d.check_calibration(), Err(LoadError::WrongEnglishSize(1)));
    for s in 1..360u32 {
        rows.push((611, s + 10_000, 0));
    }
    let d = Colag::from_rows(&rows);
    assert_eq!(d.check_calibration(), Err(LoadError::MissingEnglishSentence(3138)));
    let mut good: Vec<(u16, u32, u32)> = Vec::new();
    for g in 0..3072u16 {
        good.push((g, 0, 0));
    }
    for s in [3138u32, 1970, 5871, 6923, 1969] {
        good.push((611, s, 0));
    }
    for s in 0..354u32 {
        good.push((611, s + 20_000, 0));
    }
    let d = Colag::from_rows(&good);
    assert_eq!(d.check_calibration(), Ok(()));
}

#[test]
fn random_grammar_is_legal() {
    let d = Colag::from_rows(&small_rows());
    let mut rng = rand::weak_rng();
    for _ in 0..200 {
        let g = d.random_grammar(&mut rng);
        assert!(g == 0 || g == 5 || g == 611);
    }
}

#[test]
fn trigger_strings() {
    let v = parse_trigger_string("01*~01*~01*~0").unwrap();
    assert_eq!(v[0], Trigger::Off);
    assert_eq!(v[1], Trigger::On);
    assert_eq!(v[2], Trigger::Ambiguous);
    assert_eq!(v[3], Trigger::Irrelevant);
    assert_eq!(v[12], Trigger::Off);
    assert!(parse_trigger_string("01*~01*~01*~").is_none());
    assert!(parse_trigger_string("01*~01*~01*~00").is_none());
    assert!(parse_trigger_string("01*~01*~01*~x").is_none());
}

#[test]
fn trigger_map_rows() {
    let rows = vec![(7u32, "1111111111111".to_string()), (8, "~~~~~~~~~~~~~".to_string())];
    let m = TriggerMap::from_rows(&rows).unwrap();
    assert_eq!(m.len(), 2);
    assert_eq!(m.sentence(&7).unwrap()[4], Trigger::On);
    assert_eq!(m.sentence(&8).unwrap()[0], Trigger::Irrelevant);
    assert!(m.sentence(&9).is_none());
    let bad = vec![(7u32, "1111111111111".to_string()), (8, "bad".to_string())];
    assert_eq!(TriggerMap::from_rows(&bad).err(), Some(LoadError::BadTriggerString(8)));
    let mut d = Colag::from_rows(&small_rows());
    d.set_triggers(m);
    assert_eq!(d.triggers(&8)[12], Trigger::Irrelevant);
    assert_eq!(d.trigger_map().len(), 2);
}

#[test]
fn surface_rows_are_trimmed_and_parsed() {
    let mut d = Colag::from_rows(&small_rows());
    let rows = vec![
        (1u32, " Q ".to_string(), "S Verb ka \n".to_string()),
        (2, "DEC".to_string(), "Verb O1 S".to_string()),
    ];
    assert_eq!(d.add_surface_rows(&rows), Ok(()));
    let f = d.surface_form(&1);
    assert_eq!(f.illoc, Illoc::Q);
    assert_eq!(f.words.len(), 3);
    assert!(matches!(f.words[2], SurfaceSymbol::Ka));
    assert_eq!(d.surface_form(&2).illoc, Illoc::Dec);
    let bad_tag = vec![(3u32, "ASK".to_string(), "S".to_string())];
    assert_eq!(d.add_surface_rows(&bad_tag), Err(LoadError::BadIlloc(3)));
    let bad_form = vec![(4u32, "Q".to_string(), "S Bogus".to_string())];
    assert_eq!(d.add_surface_rows(&bad_form), Err(LoadError::BadSurfaceForm(4)));
    let env = Environment { domain: d };
    assert_eq!(env.domain.parses(&611, &2), Ok(true));
}

#[test]
fn trigger_table_size_check() {
    let rows = vec![(7u32, "1111111111111".to_string())];
    let m = TriggerMap::from_rows(&rows).unwrap();
    assert_eq!(m.check_size(), Err(LoadError::WrongTriggerCount(1)));
    let mut many: Vec<(u32, String)> = Vec::new();
    for s in 0..48077u32 {
        many.push((s, "0000000000000".to_string()));
    }
    let m = TriggerMap::from_rows(&many).unwrap();
    assert_eq!(m.check_size(), Ok(()));
}

#[test]
fn ambiguity_and_illegal_grammars() {
    let d = Colag::from_rows(&small_rows());
    assert!(d.illegal_grammar(&1));
    assert!(!d.illegal_grammar(&611));
    assert_eq!(d.num_grammars(), 3);
    // Parameter 10 is bit 2: 611 flips to 615, which is illegal here.
    assert_eq!(d.ambig_or_irrel(&vec![611], 10), Trigger::Irrelevant);
    // Grammar 1 flipped at parameter 12 is 0: legal, and not a generator.
    assert_eq!(d.ambig_or_irrel(&vec![1], 12), Trigger::Ambiguous);
    // 0 and 1 are both generators: flipping parameter 12 stays among them.
    assert_eq!(d.ambig_or_irrel(&vec![0, 1], 12), Trigger::Irrelevant);
    let all = d.all_sentences();
    assert_eq!(all.len(), 3);
    assert!(all.contains(&1) && all.contains(&2) && all.contains(&3));
}

#[test]
fn feature_order() {
    assert_eq!(FeatureVal::False.cmp(&FeatureVal::True), Ordering::Less);
    assert_eq!(FeatureVal::True.cmp(&FeatureVal::False), Ordering::Greater);
    assert_eq!(FeatureVal::Any.cmp(&FeatureVal::True), Ordering::Equal);
    assert!(FeatureVal::False < FeatureVal::True);
    assert_eq!(FeatureVal::True.partial_cmp(&FeatureVal::Any), Some(Ordering::Equal));
}
