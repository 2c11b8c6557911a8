use colag_sim::sentence::{
    o1, o2, o3, pro, subject, FeatureType, FeatureVal, Illoc, SurfaceForm, SurfaceSymbol,
};

fn form(s: &str) -> SurfaceForm {
    SurfaceForm::parse(s).expect("well-formed surface form")
}

#[test]
fn parse_tokens() {
    assert!(matches!(SurfaceSymbol::parse("Aux"), Some(SurfaceSymbol::Aux)));
    assert!(matches!(SurfaceSymbol::parse("ka"), Some(SurfaceSymbol::Ka)));
    assert!(matches!(
        SurfaceSymbol::parse("O1[+WH]"),
        Some(SurfaceSymbol::O1_ { wa: FeatureVal::False, wh: FeatureVal::True })
    ));
    assert!(matches!(
        SurfaceSymbol::parse("O2[+WH][+WA]"),
        Some(SurfaceSymbol::O2_ { wa: FeatureVal::True, wh: FeatureVal::True })
    ));
    assert!(matches!(SurfaceSymbol::parse("P[+WA]"), Some(SurfaceSymbol::P_ { wa: FeatureVal::True })));
    assert!(SurfaceSymbol::parse("P[+WH]").is_none());
    assert!(SurfaceSymbol::parse("Aux[+WA]").is_none());
    assert!(SurfaceSymbol::parse("O1[+WA][+WH]").is_none());
    assert!(SurfaceSymbol::parse("Ka").is_none());
    assert!(SurfaceSymbol::parse("").is_none());
}

#[test]
fn token_round_trip() {
    let tokens = [
        "Adv", "Adv[+WA]", "Adv[+WH]", "Adv[+WH][+WA]", "Aux", "Never", "Not", "Verb", "ka", "O1", "O1[+WA]",
        "O1[+WH]", "O1[+WH][+WA]", "O2", "O2[+WH]", "O3", "O3[+WH][+WA]", "S", "S[+WA]", "S[+WH]", "P", "P[+WA]",
    ];
    for t in tokens.iter() {
        let sym = SurfaceSymbol::parse(t).unwrap();
        assert_eq!(sym.to_token(), t.to_string());
        let back = SurfaceSymbol::parse(&sym.to_token()).unwrap();
        assert!(back.matches(&sym));
    }
    // A wildcard feature is written as absent and comes back as False,
    // which still matches under wildcard equality.
    let any = SurfaceSymbol::O3_ { wa: FeatureVal::Any, wh: FeatureVal::True };
    assert_eq!(any.to_token(), "O3[+WH]".to_string());
    let back = SurfaceSymbol::parse(&any.to_token()).unwrap();
    assert!(back.matches(&any));
    assert!(back == any);
}

#[test]
fn wildcard_equality_is_not_transitive() {
    assert!(FeatureVal::True == FeatureVal::Any);
    assert!(FeatureVal::Any == FeatureVal::False);
    assert!(FeatureVal::True != FeatureVal::False);
    let wh = SurfaceSymbol::O1_ { wa: FeatureVal::False, wh: FeatureVal::True };
    assert!(wh == o1());
    assert!(wh != o2());
}

#[test]
fn parse_illoc_tags() {
    assert_eq!(Illoc::parse("DEC"), Some(Illoc::Dec));
    assert_eq!(Illoc::parse("Q"), Some(Illoc::Q));
    assert_eq!(Illoc::parse("IMP"), Some(Illoc::Imp));
    assert_eq!(Illoc::parse("Dec"), None);
}

#[test]
fn parse_forms() {
    let f = form("Aux Never Never Never O2[+WH][+WA] O1[+WH]");
    assert_eq!(f.illoc, Illoc::Dec);
    assert_eq!(f.words.len(), 6);
    assert!(matches!(f.words[3], SurfaceSymbol::Never));
    assert!(SurfaceForm::parse("Aux  Verb").is_none());
    assert!(SurfaceForm::parse("Aux Bogus").is_none());
}

#[test]
fn topicalized_empty_form_is_false() {
    let f = SurfaceForm { illoc: Illoc::Dec, words: vec![] };
    assert!(!f.topicalized(&o1()));
    assert!(!f.topicalized(&SurfaceSymbol::Aux));
    assert!(!f.ends_with(&SurfaceSymbol::Aux));
}

#[test]
fn adjacent_when_first_is_last_word_is_false() {
    let f = form("S Verb O1");
    assert!(!f.adjacent(&o1(), &subject()));
    assert!(!f.adjacent(&o1(), &SurfaceSymbol::Verb));
    assert!(f.adjacent(&subject(), &SurfaceSymbol::Verb));
    assert!(!f.adjacent(&SurfaceSymbol::Verb, &subject()));
}

#[test]
fn out_oblique_scenarios() {
    assert!(form("P O2[+WH][+WA] O3 O1[+WH]").out_oblique());
    assert!(!form("Aux Never Never Never O2[+WH][+WA] O1[+WH]").out_oblique());
    // O1 < O2 < P with P right before O3.
    assert!(!form("O1 O2 P O3").out_oblique());
    // O3 < O2 < O1 with O3 right before P.
    assert!(!form("O3 P O2 O1").out_oblique());
}

#[test]
fn index_order_and_membership() {
    let f = form("S[+WH] Aux Verb O1 O2");
    assert_eq!(f.index(&subject()), Some(0));
    assert_eq!(f.index(&o2()), Some(4));
    assert_eq!(f.index(&o3()), None);
    assert!(f.order(&subject(), &o1()));
    assert!(!f.order(&o1(), &subject()));
    assert!(!f.order(&o1(), &o3()));
    assert!(f.contains(&SurfaceSymbol::Verb));
    assert!(!f.contains(&pro()));
    assert!(f.contains_feature(&FeatureType::WH));
    assert!(!f.contains_feature(&FeatureType::WA));
    assert!(f.topicalized(&subject()));
    assert!(f.ends_with(&o2()));
    assert!(f.starts_with(&[&subject(), &SurfaceSymbol::Aux]));
    assert!(!f.starts_with(&[&SurfaceSymbol::Aux]));
}

#[test]
fn has_feature_of_symbols() {
    let p = SurfaceSymbol::P_ { wa: FeatureVal::True };
    assert!(p.has_feature(&FeatureType::WA));
    assert!(!p.has_feature(&FeatureType::WH));
    assert!(!SurfaceSymbol::Aux.has_feature(&FeatureType::WH));
    let s = SurfaceSymbol::S_ { wa: FeatureVal::False, wh: FeatureVal::True };
    assert!(s.has_feature(&FeatureType::WH));
    assert!(!s.has_feature(&FeatureType::WA));
}
