use colag_sim::cues::{
    cue_updates, head_in_cp, head_ip, null_subject, null_topic, optional_topic, prep_stranding, run_triggers,
    subject_position, wh_movement, Op, Param, Rate,
};
use colag_sim::sentence::{Illoc, SurfaceForm};

fn form(illoc: Illoc, s: &str) -> SurfaceForm {
    let mut f = SurfaceForm::parse(s).unwrap();
    f.illoc = illoc;
    f
}

#[test]
fn subject_position_cue_fires_once() {
    let f = form(Illoc::Dec, "Verb O1 S");
    let updates = cue_updates(&f);
    let hits = updates.iter().filter(|u| **u == (Param::SP, Rate::Normal, true)).count();
    assert_eq!(hits, 1);
    assert!(matches!(subject_position(&f), Some(Op::Update(Param::SP, Rate::Normal, true))));
    let g = form(Illoc::Dec, "Verb S O1");
    assert!(matches!(subject_position(&g), Some(Op::Update(Param::SP, Rate::Normal, false))));
    let q = form(Illoc::Q, "Verb O1 S");
    assert!(subject_position(&q).is_none());
}

#[test]
fn head_in_cp_cue() {
    assert!(matches!(head_in_cp(&form(Illoc::Q, "S Verb ka")), Some(Op::Update(Param::HCP, Rate::Normal, true))));
    assert!(matches!(head_in_cp(&form(Illoc::Q, "S Verb Aux")), Some(Op::Update(Param::HCP, Rate::Normal, true))));
    assert!(matches!(head_in_cp(&form(Illoc::Q, "ka S Verb")), Some(Op::Update(Param::HCP, Rate::Normal, false))));
    assert!(head_in_cp(&form(Illoc::Dec, "S Verb ka")).is_none());
}

#[test]
fn head_ip_cue() {
    assert!(matches!(head_ip(&form(Illoc::Dec, "S O3 P Verb")), Some(Op::Update(Param::HIP, Rate::Normal, true))));
    assert!(matches!(head_ip(&form(Illoc::Dec, "S P O3 Verb")), Some(Op::Update(Param::HIP, Rate::Normal, false))));
    assert!(head_ip(&form(Illoc::Dec, "O3 P Verb")).is_none());
    assert!(matches!(head_ip(&form(Illoc::Imp, "O1 Verb")), Some(Op::Update(Param::HIP, Rate::Normal, true))));
    assert!(head_ip(&form(Illoc::Imp, "Verb O1")).is_none());
}

#[test]
fn null_subject_cue() {
    let f = form(Illoc::Dec, "P O2 O3 O1");
    assert!(matches!(
        null_subject(&f),
        Some(Op::Update2((Param::NS, Rate::Normal, true), (Param::OPT, Rate::Normal, true)))
    ));
    let g = form(Illoc::Dec, "S P O2 O3 O1");
    assert!(matches!(null_subject(&g), Some(Op::Update(Param::NS, Rate::Conservative, false))));
    assert!(null_subject(&form(Illoc::Dec, "S Verb")).is_none());
}

#[test]
fn null_topic_cue() {
    let f = form(Illoc::Dec, "S O2 Verb");
    assert!(matches!(
        null_topic(&f),
        Some(Op::Update2((Param::NT, Rate::Normal, true), (Param::OPT, Rate::Normal, false)))
    ));
    let g = form(Illoc::Dec, "Adv S O1 O2 O3");
    assert!(matches!(null_topic(&g), Some(Op::Update(Param::NT, Rate::Conservative, false))));
}

#[test]
fn wh_movement_cue() {
    let f = form(Illoc::Q, "O1[+WH] S Verb");
    assert!(matches!(wh_movement(&f), Some(Op::Update(Param::WHM, Rate::Conservative, true))));
    let g = form(Illoc::Q, "P O3[+WH] S Verb");
    assert!(matches!(wh_movement(&g), Some(Op::Update(Param::WHM, Rate::Conservative, true))));
    let h = form(Illoc::Q, "S Verb O1[+WH]");
    assert!(matches!(wh_movement(&h), Some(Op::Update(Param::WHM, Rate::Normal, false))));
    assert!(wh_movement(&form(Illoc::Q, "S Verb O1")).is_none());
}

#[test]
fn optional_topic_and_prep_stranding() {
    let f = form(Illoc::Dec, "S Verb");
    assert!(matches!(optional_topic(&f, true), Some(Op::Update(Param::OPT, Rate::Normal, true))));
    assert!(optional_topic(&f, false).is_none());
    assert!(optional_topic(&form(Illoc::Dec, "S[+WA] Verb"), true).is_none());
    assert!(prep_stranding(&f).is_none());
}

#[test]
fn run_triggers_order_and_flattening() {
    let f = form(Illoc::Dec, "P O2 O3 O1");
    let ops = run_triggers(&f);
    assert_eq!(ops.len(), 6);
    assert!(ops[5].is_none());
    let ups = cue_updates(&f);
    assert_eq!(ups, vec![(Param::NS, Rate::Normal, true), (Param::OPT, Rate::Normal, true)]);
    assert_eq!(Param::QInv.index(), 12);
    assert_eq!(Param::SP.index(), 0);
}
