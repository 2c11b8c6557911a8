//! The symbolic cues of the non-defaults learner: each inspects a surface
//! form and proposes weight updates for named parameters.

use vstd::prelude::*;
use crate::sentence::{
    adjacent_spec, adv, o1, o2, o3, occurs, out_oblique_spec, pro, subject, symbols_match, topicalized_spec,
    FeatureType, FeatureVal, Illoc, SurfaceForm, SurfaceSymbol,
};

verus! {

/// The thirteen parameters, by name, in bit order.
#[derive(Clone, Copy, Debug, PartialEq, Eq, Hash, Structural)]
pub enum Param {
    SP,
    HIP,
    HCP,
    OPT,
    NS,
    NT,
    WHM,
    PI,
    TM,
    VtoI,
    ItoC,
    AH,
    QInv,
}

/// How strongly a cue moves a weight.
#[derive(Clone, Copy, Debug, PartialEq, Eq, Structural)]
pub enum Rate {
    Normal,
    Conservative,
}

/// One proposed update: the parameter, the rate and the direction
/// (`true` moves the weight up).
pub type Update = (Param, Rate, bool);

/// What a cue emits: one update or two.
#[derive(Clone, Copy, Debug)]
pub enum Op {
    Update(Param, Rate, bool),
    Update2((Param, Rate, bool), (Param, Rate, bool)),
}

/// The position of a parameter in the weight vector.
pub open spec fn param_index(p: Param) -> int {
    match p {
        Param::SP => 0,
        Param::HIP => 1,
        Param::HCP => 2,
        Param::OPT => 3,
        Param::NS => 4,
        Param::NT => 5,
        Param::WHM => 6,
        Param::PI => 7,
        Param::TM => 8,
        Param::VtoI => 9,
        Param::ItoC => 10,
        Param::AH => 11,
        Param::QInv => 12,
    }
}

impl Param {
    /// The position of this parameter in the weight vector.
    pub fn index(&self) -> (r: usize)
        ensures
            r == param_index(*self),
            r < 13,
    {
        match self {
            Param::SP => 0,
            Param::HIP => 1,
            Param::HCP => 2,
            Param::OPT => 3,
            Param::NS => 4,
            Param::NT => 5,
            Param::WHM => 6,
            Param::PI => 7,
            Param::TM => 8,
            Param::VtoI => 9,
            Param::ItoC => 10,
            Param::AH => 11,
            Param::QInv => 12,
        }
    }
}

/// The pattern `O1` with wildcard features.
pub open spec fn pat_o1() -> SurfaceSymbol {
    SurfaceSymbol::O1_ { wa: FeatureVal::Any, wh: FeatureVal::Any }
}

/// The pattern `O2` with wildcard features.
pub open spec fn pat_o2() -> SurfaceSymbol {
    SurfaceSymbol::O2_ { wa: FeatureVal::Any, wh: FeatureVal::Any }
}

/// The pattern `O3` with wildcard features.
pub open spec fn pat_o3() -> SurfaceSymbol {
    SurfaceSymbol::O3_ { wa: FeatureVal::Any, wh: FeatureVal::Any }
}

/// The pattern `P` with wildcard features.
pub open spec fn pat_p() -> SurfaceSymbol {
    SurfaceSymbol::P_ { wa: FeatureVal::Any }
}

/// The pattern `S` with wildcard features.
pub open spec fn pat_s() -> SurfaceSymbol {
    SurfaceSymbol::S_ { wa: FeatureVal::Any, wh: FeatureVal::Any }
}

/// The pattern `Adv` with wildcard features.
pub open spec fn pat_adv() -> SurfaceSymbol {
    SurfaceSymbol::Adv_ { wa: FeatureVal::Any, wh: FeatureVal::Any }
}

/// Subject position: on declaratives, an object before the subject raises
/// SP, the subject before an object lowers it (neither counts when it opens
/// the sentence).
pub open spec fn subject_position_spec(illoc: Illoc, ws: Seq<SurfaceSymbol>) -> Option<Op> {
    if illoc != Illoc::Dec {
        None
    } else if !topicalized_spec(ws, pat_o1()) && crate::sentence::order_spec(ws, pat_o1(), pat_s()) {
        Some(Op::Update(Param::SP, Rate::Normal, true))
    } else if !topicalized_spec(ws, pat_s()) && crate::sentence::order_spec(ws, pat_s(), pat_o1()) {
        Some(Op::Update(Param::SP, Rate::Normal, false))
    } else {
        None
    }
}

/// Head in CP: on questions, a final `ka` (or a final `Aux` without any
/// `ka`) raises HCP, an initial one lowers it.
pub open spec fn head_in_cp_spec(illoc: Illoc, ws: Seq<SurfaceSymbol>) -> Option<Op> {
    let ends_ka = ws.len() > 0 && symbols_match(ws.last(), SurfaceSymbol::Ka);
    let ends_aux = ws.len() > 0 && symbols_match(ws.last(), SurfaceSymbol::Aux);
    let has_ka = occurs(ws, SurfaceSymbol::Ka);
    if illoc != Illoc::Q {
        None
    } else if ends_ka || (ends_aux && !has_ka) {
        Some(Op::Update(Param::HCP, Rate::Normal, true))
    } else if topicalized_spec(ws, SurfaceSymbol::Ka) || (topicalized_spec(ws, SurfaceSymbol::Aux) && !has_ka) {
        Some(Op::Update(Param::HCP, Rate::Normal, false))
    } else {
        None
    }
}

/// Head of IP: with both `O3` and `P`, `O3` right before `P` raises HIP and
/// `P` right before `O3` lowers it (unless `O3` opens the sentence); else on
/// imperatives with `O1` and `Verb`, `O1` right before `Verb` raises it. The
/// lowering branch of the imperative case tests the same condition as the
/// raising one and so never fires.
pub open spec fn head_ip_spec(illoc: Illoc, ws: Seq<SurfaceSymbol>) -> Option<Op> {
    if occurs(ws, pat_o3()) && occurs(ws, pat_p()) {
        if !topicalized_spec(ws, pat_o3()) && adjacent_spec(ws, pat_o3(), pat_p()) {
            Some(Op::Update(Param::HIP, Rate::Normal, true))
        } else if !topicalized_spec(ws, pat_o3()) && adjacent_spec(ws, pat_p(), pat_o3()) {
            Some(Op::Update(Param::HIP, Rate::Normal, false))
        } else {
            None
        }
    } else if illoc == Illoc::Imp && occurs(ws, pat_o1()) && occurs(ws, SurfaceSymbol::Verb) {
        if adjacent_spec(ws, pat_o1(), SurfaceSymbol::Verb) {
            Some(Op::Update(Param::HIP, Rate::Normal, true))
        } else {
            None
        }
    } else {
        None
    }
}

/// Null subject: on declaratives out of the oblique configurations, no
/// subject raises NS and OPT, a subject lowers NS conservatively.
pub open spec fn null_subject_spec(illoc: Illoc, ws: Seq<SurfaceSymbol>) -> Option<Op> {
    if illoc == Illoc::Dec && !occurs(ws, pat_s()) && out_oblique_spec(ws) {
        Some(Op::Update2((Param::NS, Rate::Normal, true), (Param::OPT, Rate::Normal, true)))
    } else if illoc == Illoc::Dec && occurs(ws, pat_s()) && out_oblique_spec(ws) {
        Some(Op::Update(Param::NS, Rate::Conservative, false))
    } else {
        None
    }
}

/// Null topic: on declaratives, `O2` without `O1` raises NT and lowers OPT;
/// all of `O1`, `O2`, `O3`, `S`, `Adv` lower NT conservatively.
pub open spec fn null_topic_spec(illoc: Illoc, ws: Seq<SurfaceSymbol>) -> Option<Op> {
    if illoc == Illoc::Dec && occurs(ws, pat_o2()) && !occurs(ws, pat_o1()) {
        Some(Op::Update2((Param::NT, Rate::Normal, true), (Param::OPT, Rate::Normal, false)))
    } else if illoc == Illoc::Dec && occurs(ws, pat_o1()) && occurs(ws, pat_o2()) && occurs(ws, pat_o3())
        && occurs(ws, pat_s()) && occurs(ws, pat_adv()) {
        Some(Op::Update(Param::NT, Rate::Conservative, false))
    } else {
        None
    }
}

/// Some word carries the wh feature.
pub open spec fn has_wh(ws: Seq<SurfaceSymbol>) -> bool {
    exists|i: int| 0 <= i < ws.len() && crate::sentence::has_feature_spec(#[trigger] ws[i], FeatureType::WH)
}

/// Wh-movement: on questions with a wh-word, a wh-word first (or `P`
/// followed by a wh `O3`) raises WHM conservatively; otherwise it is lowered.
pub open spec fn wh_movement_spec(illoc: Illoc, ws: Seq<SurfaceSymbol>) -> Option<Op> {
    if illoc == Illoc::Q && has_wh(ws) {
        let fronted = crate::sentence::has_feature_spec(ws[0], FeatureType::WH) || (ws.len() >= 2
            && symbols_match(ws[0], pat_p()) && symbols_match(
            ws[1],
            SurfaceSymbol::O3_ { wh: FeatureVal::True, wa: FeatureVal::Any },
        ));
        if fronted {
            Some(Op::Update(Param::WHM, Rate::Conservative, true))
        } else {
            Some(Op::Update(Param::WHM, Rate::Normal, false))
        }
    } else {
        None
    }
}

/// Optional topic: without any topic-marked word, and with the topic-marking
/// weight above one half, OPT is raised.
pub open spec fn optional_topic_spec(ws: Seq<SurfaceSymbol>, topic_marking_likely: bool) -> Option<Op> {
    let has_wa = exists|i: int| 0 <= i < ws.len() && crate::sentence::has_feature_spec(#[trigger] ws[i], FeatureType::WA);
    if !has_wa && topic_marking_likely {
        Some(Op::Update(Param::OPT, Rate::Normal, true))
    } else {
        None
    }
}

/// The cue for subject position.
pub fn subject_position(form: &SurfaceForm) -> (r: Option<Op>)
    ensures
        r == subject_position_spec(form.illoc, form.words@),
{
    if form.illoc != Illoc::Dec {
        None
    } else if !form.topicalized(&o1()) && form.order(&o1(), &subject()) {
        Some(Op::Update(Param::SP, Rate::Normal, true))
    } else if !form.topicalized(&subject()) && form.order(&subject(), &o1()) {
        Some(Op::Update(Param::SP, Rate::Normal, false))
    } else {
        None
    }
}

/// The cue for the head of IP.
pub fn head_ip(form: &SurfaceForm) -> (r: Option<Op>)
    ensures
        r == head_ip_spec(form.illoc, form.words@),
{
    if form.contains(&o3()) && form.contains(&pro()) {
        if !form.topicalized(&o3()) && form.adjacent(&o3(), &pro()) {
            return Some(Op::Update(Param::HIP, Rate::Normal, true));
        } else if !form.topicalized(&o3()) && form.adjacent(&pro(), &o3()) {
            return Some(Op::Update(Param::HIP, Rate::Normal, false));
        }
    } else if form.illoc == Illoc::Imp && form.contains(&o1()) && form.contains(&SurfaceSymbol::Verb) {
        if form.adjacent(&o1(), &SurfaceSymbol::Verb) {
            return Some(Op::Update(Param::HIP, Rate::Normal, true));
        } else if form.adjacent(&o1(), &SurfaceSymbol::Verb) {
            return Some(Op::Update(Param::HIP, Rate::Normal, false));
        }
    }
    None
}

/// The cue for the head in CP.
pub fn head_in_cp(form: &SurfaceForm) -> (r: Option<Op>)
    ensures
        r == head_in_cp_spec(form.illoc, form.words@),
{
    if form.illoc != Illoc::Q {
        None
    } else if form.ends_with(&SurfaceSymbol::Ka) || (form.ends_with(&SurfaceSymbol::Aux) && !form.contains(
        &SurfaceSymbol::Ka,
    )) {
        Some(Op::Update(Param::HCP, Rate::Normal, true))
    } else if form.topicalized(&SurfaceSymbol::Ka) || (form.topicalized(&SurfaceSymbol::Aux) && !form.contains(
        &SurfaceSymbol::Ka,
    )) {
        Some(Op::Update(Param::HCP, Rate::Normal, false))
    } else {
        None
    }
}

/// The cue for optional topics; `topic_marking_likely` tells whether the
/// topic-marking weight is above one half.
pub fn optional_topic(form: &SurfaceForm, topic_marking_likely: bool) -> (r: Option<Op>)
    ensures
        r == optional_topic_spec(form.words@, topic_marking_likely),
{
    if !form.contains_feature(&FeatureType::WA) && topic_marking_likely {
        Some(Op::Update(Param::OPT, Rate::Normal, true))
    } else {
        None
    }
}

/// The cue for null subjects.
pub fn null_subject(form: &SurfaceForm) -> (r: Option<Op>)
    ensures
        r == null_subject_spec(form.illoc, form.words@),
{
    if form.illoc == Illoc::Dec && !form.contains(&subject()) && form.out_oblique() {
        Some(Op::Update2((Param::NS, Rate::Normal, true), (Param::OPT, Rate::Normal, true)))
    } else if form.illoc == Illoc::Dec && form.contains(&subject()) && form.out_oblique() {
        Some(Op::Update(Param::NS, Rate::Conservative, false))
    } else {
        None
    }
}

/// The cue for null topics.
pub fn null_topic(form: &SurfaceForm) -> (r: Option<Op>)
    ensures
        r == null_topic_spec(form.illoc, form.words@),
{
    if form.illoc == Illoc::Dec && form.contains(&o2()) && !form.contains(&o1()) {
        Some(Op::Update2((Param::NT, Rate::Normal, true), (Param::OPT, Rate::Normal, false)))
    } else if form.illoc == Illoc::Dec && form.contains(&o1()) && form.contains(&o2()) && form.contains(&o3())
        && form.contains(&subject()) && form.contains(&adv()) {
        Some(Op::Update(Param::NT, Rate::Conservative, false))
    } else {
        None
    }
}

/// The cue for wh-movement.
pub fn wh_movement(form: &SurfaceForm) -> (r: Option<Op>)
    ensures
        r == wh_movement_spec(form.illoc, form.words@),
{
    let has_wh = form.contains_feature(&FeatureType::WH);
    if form.illoc == Illoc::Q && has_wh {
        let p = pro();
        let o3_wh = SurfaceSymbol::O3_ { wh: FeatureVal::True, wa: FeatureVal::Any };
        if form.words[0].has_feature(&FeatureType::WH) || form.starts_with(&[&p, &o3_wh]) {
            Some(Op::Update(Param::WHM, Rate::Conservative, true))
        } else {
            Some(Op::Update(Param::WHM, Rate::Normal, false))
        }
    } else {
        None
    }
}

/// The cue for preposition stranding: reserved, it never fires.
pub fn prep_stranding(_form: &SurfaceForm) -> (r: Option<Op>)
    ensures
        r is None,
{
    None
}

/// What the cues that the learner runs emit, in order: subject position,
/// head in CP, head of IP, null subject, wh-movement, preposition stranding.
pub open spec fn run_triggers_spec(illoc: Illoc, ws: Seq<SurfaceSymbol>) -> Seq<Option<Op>> {
    seq![
        subject_position_spec(illoc, ws),
        head_in_cp_spec(illoc, ws),
        head_ip_spec(illoc, ws),
        null_subject_spec(illoc, ws),
        wh_movement_spec(illoc, ws),
        None,
    ]
}

/// Runs the learner's cues on `form`.
pub fn run_triggers(form: &SurfaceForm) -> (r: Vec<Option<Op>>)
    ensures
        r@ == run_triggers_spec(form.illoc, form.words@),
{
    let r = vec![
        subject_position(form),
        head_in_cp(form),
        head_ip(form),
        null_subject(form),
        wh_movement(form),
        prep_stranding(form),
    ];
    assert(r@ =~= run_triggers_spec(form.illoc, form.words@));
    r
}

/// The updates of a cue result, in order.
pub open spec fn op_updates(op: Option<Op>) -> Seq<Update> {
    match op {
        None => seq![],
        Some(Op::Update(p, r, d)) => seq![(p, r, d)],
        Some(Op::Update2(a, b)) => seq![a, b],
    }
}

/// The updates of a list of cue results, in order.
pub open spec fn flatten_ops(ops: Seq<Option<Op>>) -> Seq<Update>
    decreases ops.len(),
{
    if ops.len() == 0 {
        seq![]
    } else {
        flatten_ops(ops.drop_last()) + op_updates(ops.last())
    }
}

/// The weight updates that one surface form calls for, in the order the
/// learner applies them.
pub fn cue_updates(form: &SurfaceForm) -> (r: Vec<Update>)
    ensures
        r@ == flatten_ops(run_triggers_spec(form.illoc, form.words@)),
{
    let ops = run_triggers(form);
    let mut r: Vec<Update> = Vec::new();
    let mut i: usize = 0;
    while i < ops.len()
        invariant
            i <= ops@.len(),
            r@ == flatten_ops(ops@.take(i as int)),
        decreases ops@.len() - i,
    {
        assert(ops@.take(i + 1).drop_last() =~= ops@.take(i as int));
        let ghost before = r@;
        match ops[i] {
            None => {},
            Some(Op::Update(p, rate, d)) => {
                r.push((p, rate, d));
            },
            Some(Op::Update2(a, b)) => {
                r.push(a);
                r.push(b);
            },
        }
        assert(r@ =~= before + op_updates(ops@[i as int]));
        i = i + 1;
    }
    assert(ops@.take(i as int) =~= ops@);
    r
}

} // verus!
