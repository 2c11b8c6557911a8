//! Surface forms: a sentence as an illocutionary force and a sequence of
//! typed symbols, with wildcard-aware queries over the words.

use vstd::prelude::*;

verus! {

/// A feature that a surface symbol may carry.
#[derive(Clone, Copy, Debug, PartialEq, Eq, Structural)]
pub enum FeatureType {
    WH,
    WA,
}

/// A feature value. `Any` acts as a wildcard in comparisons.
#[derive(Clone, Copy, Debug)]
pub enum FeatureVal {
    True,
    False,
    Any,
}

/// Wildcard equality of feature values: `Any` matches everything.
pub open spec fn feature_matches(a: FeatureVal, b: FeatureVal) -> bool {
    a is Any || b is Any || a == b
}

impl FeatureVal {
    /// Wildcard equality of feature values.
    pub fn matches(&self, other: &FeatureVal) -> (r: bool)
        ensures
            r == feature_matches(*self, *other),
    {
        match (self, other) {
            (FeatureVal::Any, _) => true,
            (_, FeatureVal::Any) => true,
            (FeatureVal::True, FeatureVal::True) => true,
            (FeatureVal::False, FeatureVal::False) => true,
            _ => false,
        }
    }
}

impl PartialEq for FeatureVal {
    fn eq(&self, other: &FeatureVal) -> (r: bool) {
        self.matches(other)
    }
}

impl vstd::std_specs::cmp::PartialEqSpecImpl for FeatureVal {
    open spec fn obeys_eq_spec() -> bool {
        true
    }

    open spec fn eq_spec(&self, other: &FeatureVal) -> bool {
        feature_matches(*self, *other)
    }
}

/// Order of feature values: `False < True`, and `Any` equal to everything.
pub open spec fn feature_cmp(a: FeatureVal, b: FeatureVal) -> std::cmp::Ordering {
    if a is Any || b is Any || a == b {
        std::cmp::Ordering::Equal
    } else if a is True {
        std::cmp::Ordering::Greater
    } else {
        std::cmp::Ordering::Less
    }
}

impl FeatureVal {
    /// Compares feature values: `False < True`, and `Any` equal to everything.
    pub fn cmp(&self, other: &FeatureVal) -> (r: std::cmp::Ordering)
        ensures
            r == feature_cmp(*self, *other),
    {
        match (self, other) {
            (FeatureVal::Any, _) => std::cmp::Ordering::Equal,
            (_, FeatureVal::Any) => std::cmp::Ordering::Equal,
            (FeatureVal::True, FeatureVal::True) => std::cmp::Ordering::Equal,
            (FeatureVal::False, FeatureVal::False) => std::cmp::Ordering::Equal,
            (FeatureVal::True, FeatureVal::False) => std::cmp::Ordering::Greater,
            (FeatureVal::False, FeatureVal::True) => std::cmp::Ordering::Less,
        }
    }
}

impl PartialOrd for FeatureVal {
    fn partial_cmp(&self, other: &FeatureVal) -> (r: Option<std::cmp::Ordering>) {
        Some(self.cmp(other))
    }
}

impl vstd::std_specs::cmp::PartialOrdSpecImpl for FeatureVal {
    open spec fn obeys_partial_cmp_spec() -> bool {
        true
    }

    open spec fn partial_cmp_spec(&self, other: &FeatureVal) -> Option<std::cmp::Ordering> {
        Some(feature_cmp(*self, *other))
    }
}

/// One word of a surface form.
#[allow(non_camel_case_types)]
#[derive(Clone, Copy, Debug)]
pub enum SurfaceSymbol {
    Adv_ { wa: FeatureVal, wh: FeatureVal },
    Aux,
    Never,
    Not,
    O1_ { wa: FeatureVal, wh: FeatureVal },
    O2_ { wa: FeatureVal, wh: FeatureVal },
    O3_ { wa: FeatureVal, wh: FeatureVal },
    P_ { wa: FeatureVal },
    S_ { wa: FeatureVal, wh: FeatureVal },
    Verb,
    Ka,
}

/// Wildcard equality of symbols: the same kind of word, with features that
/// match pairwise.
pub open spec fn symbols_match(a: SurfaceSymbol, b: SurfaceSymbol) -> bool {
    match (a, b) {
        (SurfaceSymbol::Adv_ { wa: a1, wh: a2 }, SurfaceSymbol::Adv_ { wa: b1, wh: b2 }) =>
            feature_matches(a1, b1) && feature_matches(a2, b2),
        (SurfaceSymbol::O1_ { wa: a1, wh: a2 }, SurfaceSymbol::O1_ { wa: b1, wh: b2 }) =>
            feature_matches(a1, b1) && feature_matches(a2, b2),
        (SurfaceSymbol::O2_ { wa: a1, wh: a2 }, SurfaceSymbol::O2_ { wa: b1, wh: b2 }) =>
            feature_matches(a1, b1) && feature_matches(a2, b2),
        (SurfaceSymbol::O3_ { wa: a1, wh: a2 }, SurfaceSymbol::O3_ { wa: b1, wh: b2 }) =>
            feature_matches(a1, b1) && feature_matches(a2, b2),
        (SurfaceSymbol::S_ { wa: a1, wh: a2 }, SurfaceSymbol::S_ { wa: b1, wh: b2 }) =>
            feature_matches(a1, b1) && feature_matches(a2, b2),
        (SurfaceSymbol::P_ { wa: a1 }, SurfaceSymbol::P_ { wa: b1 }) => feature_matches(a1, b1),
        (SurfaceSymbol::Aux, SurfaceSymbol::Aux) => true,
        (SurfaceSymbol::Never, SurfaceSymbol::Never) => true,
        (SurfaceSymbol::Not, SurfaceSymbol::Not) => true,
        (SurfaceSymbol::Verb, SurfaceSymbol::Verb) => true,
        (SurfaceSymbol::Ka, SurfaceSymbol::Ka) => true,
        _ => false,
    }
}

/// Whether symbol `s` carries feature `ft` (compared with wildcard equality
/// against `True`).
pub open spec fn has_feature_spec(s: SurfaceSymbol, ft: FeatureType) -> bool {
    match s {
        SurfaceSymbol::Adv_ { wa, wh }
        | SurfaceSymbol::O1_ { wa, wh }
        | SurfaceSymbol::O2_ { wa, wh }
        | SurfaceSymbol::O3_ { wa, wh }
        | SurfaceSymbol::S_ { wa, wh } => match ft {
            FeatureType::WH => feature_matches(wh, FeatureVal::True),
            FeatureType::WA => feature_matches(wa, FeatureVal::True),
        },
        SurfaceSymbol::P_ { wa } => match ft {
            FeatureType::WA => feature_matches(wa, FeatureVal::True),
            FeatureType::WH => false,
        },
        _ => false,
    }
}

/// The pattern `Adv` with wildcard features.
pub fn adv() -> (r: SurfaceSymbol)
    ensures
        r == (SurfaceSymbol::Adv_ { wa: FeatureVal::Any, wh: FeatureVal::Any }),
{
    SurfaceSymbol::Adv_ { wa: FeatureVal::Any, wh: FeatureVal::Any }
}

/// The pattern `O1` with wildcard features.
pub fn o1() -> (r: SurfaceSymbol)
    ensures
        r == (SurfaceSymbol::O1_ { wa: FeatureVal::Any, wh: FeatureVal::Any }),
{
    SurfaceSymbol::O1_ { wa: FeatureVal::Any, wh: FeatureVal::Any }
}

/// The pattern `O2` with wildcard features.
pub fn o2() -> (r: SurfaceSymbol)
    ensures
        r == (SurfaceSymbol::O2_ { wa: FeatureVal::Any, wh: FeatureVal::Any }),
{
    SurfaceSymbol::O2_ { wa: FeatureVal::Any, wh: FeatureVal::Any }
}

/// The pattern `O3` with wildcard features.
pub fn o3() -> (r: SurfaceSymbol)
    ensures
        r == (SurfaceSymbol::O3_ { wa: FeatureVal::Any, wh: FeatureVal::Any }),
{
    SurfaceSymbol::O3_ { wa: FeatureVal::Any, wh: FeatureVal::Any }
}

/// The pattern `P` with a wildcard feature.
pub fn pro() -> (r: SurfaceSymbol)
    ensures
        r == (SurfaceSymbol::P_ { wa: FeatureVal::Any }),
{
    SurfaceSymbol::P_ { wa: FeatureVal::Any }
}

/// The pattern `S` with wildcard features.
pub fn subject() -> (r: SurfaceSymbol)
    ensures
        r == (SurfaceSymbol::S_ { wa: FeatureVal::Any, wh: FeatureVal::Any }),
{
    SurfaceSymbol::S_ { wa: FeatureVal::Any, wh: FeatureVal::Any }
}

impl SurfaceSymbol {
    /// Wildcard equality of symbols.
    pub fn matches(&self, other: &SurfaceSymbol) -> (r: bool)
        ensures
            r == symbols_match(*self, *other),
    {
        match (self, other) {
            (SurfaceSymbol::Adv_ { wa: a1, wh: a2 }, SurfaceSymbol::Adv_ { wa: b1, wh: b2 }) =>
                a1.matches(b1) && a2.matches(b2),
            (SurfaceSymbol::O1_ { wa: a1, wh: a2 }, SurfaceSymbol::O1_ { wa: b1, wh: b2 }) =>
                a1.matches(b1) && a2.matches(b2),
            (SurfaceSymbol::O2_ { wa: a1, wh: a2 }, SurfaceSymbol::O2_ { wa: b1, wh: b2 }) =>
                a1.matches(b1) && a2.matches(b2),
            (SurfaceSymbol::O3_ { wa: a1, wh: a2 }, SurfaceSymbol::O3_ { wa: b1, wh: b2 }) =>
                a1.matches(b1) && a2.matches(b2),
            (SurfaceSymbol::S_ { wa: a1, wh: a2 }, SurfaceSymbol::S_ { wa: b1, wh: b2 }) =>
                a1.matches(b1) && a2.matches(b2),
            (SurfaceSymbol::P_ { wa: a1 }, SurfaceSymbol::P_ { wa: b1 }) => a1.matches(b1),
            (SurfaceSymbol::Aux, SurfaceSymbol::Aux) => true,
            (SurfaceSymbol::Never, SurfaceSymbol::Never) => true,
            (SurfaceSymbol::Not, SurfaceSymbol::Not) => true,
            (SurfaceSymbol::Verb, SurfaceSymbol::Verb) => true,
            (SurfaceSymbol::Ka, SurfaceSymbol::Ka) => true,
            _ => false,
        }
    }

    /// Whether this symbol carries feature `feature`.
    pub fn has_feature(&self, feature: &FeatureType) -> (r: bool)
        ensures
            r == has_feature_spec(*self, *feature),
    {
        match self {
            SurfaceSymbol::Adv_ { wa, wh }
            | SurfaceSymbol::O1_ { wa, wh }
            | SurfaceSymbol::O2_ { wa, wh }
            | SurfaceSymbol::O3_ { wa, wh }
            | SurfaceSymbol::S_ { wa, wh } => match feature {
                FeatureType::WH => wh.matches(&FeatureVal::True),
                FeatureType::WA => wa.matches(&FeatureVal::True),
            },
            SurfaceSymbol::P_ { wa } => match feature {
                FeatureType::WA => wa.matches(&FeatureVal::True),
                FeatureType::WH => false,
            },
            _ => false,
        }
    }
}

impl PartialEq for SurfaceSymbol {
    fn eq(&self, other: &SurfaceSymbol) -> (r: bool) {
        self.matches(other)
    }
}

impl vstd::std_specs::cmp::PartialEqSpecImpl for SurfaceSymbol {
    open spec fn obeys_eq_spec() -> bool {
        true
    }

    open spec fn eq_spec(&self, other: &SurfaceSymbol) -> bool {
        symbols_match(*self, *other)
    }
}

/// Illocutionary force of a sentence.
#[derive(Clone, Copy, Debug, PartialEq, Eq, Structural)]
pub enum Illoc {
    Dec,
    Q,
    Imp,
}

/// A sentence as a force tag and an ordered sequence of symbols.
#[derive(Clone, Debug)]
pub struct SurfaceForm {
    pub illoc: Illoc,
    pub words: Vec<SurfaceSymbol>,
}

/// Some word of `ws` matches `sym`.
pub open spec fn occurs(ws: Seq<SurfaceSymbol>, sym: SurfaceSymbol) -> bool {
    exists|i: int| 0 <= i < ws.len() && symbols_match(#[trigger] ws[i], sym)
}

/// The first position of `ws` whose word matches `sym`.
pub open spec fn index_of(ws: Seq<SurfaceSymbol>, sym: SurfaceSymbol) -> Option<int>
    decreases ws.len(),
{
    if ws.len() == 0 {
        None
    } else {
        match index_of(ws.drop_last(), sym) {
            Some(i) => Some(i),
            None => if symbols_match(ws.last(), sym) { Some(ws.len() - 1) } else { None },
        }
    }
}

/// `a` and `b` both occur, the first `a` before the first `b`.
pub open spec fn order_spec(ws: Seq<SurfaceSymbol>, a: SurfaceSymbol, b: SurfaceSymbol) -> bool {
    match (index_of(ws, a), index_of(ws, b)) {
        (Some(x), Some(y)) => x < y,
        _ => false,
    }
}

/// `a` and `b` both occur, the first `b` right after the first `a`.
pub open spec fn adjacent_spec(ws: Seq<SurfaceSymbol>, a: SurfaceSymbol, b: SurfaceSymbol) -> bool {
    match (index_of(ws, a), index_of(ws, b)) {
        (Some(x), Some(y)) => y == x + 1,
        _ => false,
    }
}

/// The first word of `ws` matches `sym`.
pub open spec fn topicalized_spec(ws: Seq<SurfaceSymbol>, sym: SurfaceSymbol) -> bool {
    ws.len() > 0 && symbols_match(ws[0], sym)
}

/// Objects one to three and the preposition all occur, and neither
/// `O1 < O2 < P` with `P` right before `O3`, nor `O3 < O2 < O1` with `O3`
/// right before `P`.
pub open spec fn out_oblique_spec(ws: Seq<SurfaceSymbol>) -> bool {
    let i1 = index_of(ws, SurfaceSymbol::O1_ { wa: FeatureVal::Any, wh: FeatureVal::Any });
    let i2 = index_of(ws, SurfaceSymbol::O2_ { wa: FeatureVal::Any, wh: FeatureVal::Any });
    let i3 = index_of(ws, SurfaceSymbol::O3_ { wa: FeatureVal::Any, wh: FeatureVal::Any });
    let ip = index_of(ws, SurfaceSymbol::P_ { wa: FeatureVal::Any });
    match (i1, i2, i3, ip) {
        (Some(o1), Some(o2), Some(o3), Some(p)) =>
            !(o1 < o2 && o2 < p && o3 == p + 1) && !(o3 < o2 && o2 < o1 && p == o3 + 1),
        _ => false,
    }
}

proof fn lemma_index_of_bounds(ws: Seq<SurfaceSymbol>, sym: SurfaceSymbol)
    ensures
        match index_of(ws, sym) {
            Some(i) => 0 <= i < ws.len() && symbols_match(ws[i], sym)
                && forall|j: int| 0 <= j < i ==> !symbols_match(#[trigger] ws[j], sym),
            None => forall|j: int| 0 <= j < ws.len() ==> !symbols_match(#[trigger] ws[j], sym),
        },
    decreases ws.len(),
{
    if ws.len() > 0 {
        lemma_index_of_bounds(ws.drop_last(), sym);
        assert forall|j: int| 0 <= j < ws.len() - 1 implies ws.drop_last()[j] == ws[j] by {}
    }
}

/// When the first word matching `a` is the last word, nothing follows it:
/// `adjacent(a, b)` is false for every `b`.
pub proof fn lemma_adjacent_after_last(ws: Seq<SurfaceSymbol>, a: SurfaceSymbol, b: SurfaceSymbol)
    requires
        index_of(ws, a) == Some(ws.len() - 1),
    ensures
        !adjacent_spec(ws, a, b),
{
    lemma_index_of_bounds(ws, b);
}

/// An empty form has no first word: `topicalized(x)` is false for every `x`.
pub proof fn lemma_topicalized_empty(x: SurfaceSymbol)
    ensures
        !topicalized_spec(Seq::<SurfaceSymbol>::empty(), x),
{
}

impl SurfaceForm {
    /// Whether some word matches `sym`.
    pub fn contains(&self, sym: &SurfaceSymbol) -> (r: bool)
        ensures
            r == occurs(self.words@, *sym),
    {
        let mut i: usize = 0;
        while i < self.words.len()
            invariant
                i <= self.words@.len(),
                forall|j: int| 0 <= j < i ==> !symbols_match(#[trigger] self.words@[j], *sym),
            decreases self.words@.len() - i,
        {
            if self.words[i].matches(sym) {
                return true;
            }
            i = i + 1;
        }
        false
    }

    /// Whether some word carries feature `feat`.
    pub fn contains_feature(&self, feat: &FeatureType) -> (r: bool)
        ensures
            r == exists|i: int| 0 <= i < self.words@.len() && has_feature_spec(#[trigger] self.words@[i], *feat),
    {
        let mut i: usize = 0;
        while i < self.words.len()
            invariant
                i <= self.words@.len(),
                forall|j: int| 0 <= j < i ==> !has_feature_spec(#[trigger] self.words@[j], *feat),
            decreases self.words@.len() - i,
        {
            if self.words[i].has_feature(feat) {
                return true;
            }
            i = i + 1;
        }
        false
    }

    /// Whether the first word matches `sym`; false on an empty form.
    pub fn topicalized(&self, sym: &SurfaceSymbol) -> (r: bool)
        ensures
            r == topicalized_spec(self.words@, *sym),
    {
        if self.words.len() == 0 {
            false
        } else {
            self.words[0].matches(sym)
        }
    }

    /// Whether the last word matches `sym`; false on an empty form.
    pub fn ends_with(&self, sym: &SurfaceSymbol) -> (r: bool)
        ensures
            r == (self.words@.len() > 0 && symbols_match(self.words@.last(), *sym)),
    {
        if self.words.len() == 0 {
            false
        } else {
            self.words[self.words.len() - 1].matches(sym)
        }
    }

    /// The first position whose word matches `item`.
    pub fn index(&self, item: &SurfaceSymbol) -> (r: Option<usize>)
        ensures
            match r {
                Some(i) => index_of(self.words@, *item) == Some(i as int) && i < self.words@.len(),
                None => index_of(self.words@, *item) is None,
            },
    {
        proof { lemma_index_of_bounds(self.words@, *item); }
        let mut i: usize = 0;
        while i < self.words.len()
            invariant
                i <= self.words@.len(),
                index_of(self.words@.take(i as int), *item) is None,
            decreases self.words@.len() - i,
        {
            assert(self.words@.take(i as int + 1).drop_last() == self.words@.take(i as int));
            if self.words[i].matches(item) {
                assert(index_of(self.words@.take(i as int + 1), *item) == Some(i as int));
                proof { self.lemma_index_of_prefix(*item, i as int + 1); }
                return Some(i);
            }
            i = i + 1;
        }
        assert(self.words@.take(i as int) == self.words@);
        None
    }

    proof fn lemma_index_of_prefix(&self, item: SurfaceSymbol, n: int)
        requires
            0 <= n <= self.words@.len(),
            index_of(self.words@.take(n), item) is Some,
        ensures
            index_of(self.words@, item) == index_of(self.words@.take(n), item),
        decreases self.words@.len() - n,
    {
        if n < self.words@.len() {
            assert(self.words@.take(n + 1).drop_last() == self.words@.take(n));
            self.lemma_index_of_prefix(item, n + 1);
        } else {
            assert(self.words@.take(n) == self.words@);
        }
    }

    /// Whether `a` and `b` both occur with the first `a` before the first `b`.
    pub fn order(&self, a: &SurfaceSymbol, b: &SurfaceSymbol) -> (r: bool)
        ensures
            r == order_spec(self.words@, *a, *b),
    {
        match (self.index(a), self.index(b)) {
            (Some(x), Some(y)) => x < y,
            _ => false,
        }
    }

    /// Whether `a` and `b` both occur with the first `b` right after the
    /// first `a`.
    pub fn adjacent(&self, a: &SurfaceSymbol, b: &SurfaceSymbol) -> (r: bool)
        ensures
            r == adjacent_spec(self.words@, *a, *b),
    {
        match (self.index(a), self.index(b)) {
            (Some(x), Some(y)) => x < y && y - x == 1,
            _ => false,
        }
    }

    /// Whether the form begins with words matching `words`, in order.
    pub fn starts_with(&self, words: &[&SurfaceSymbol]) -> (r: bool)
        ensures
            r == (words@.len() <= self.words@.len() && forall|i: int|
                0 <= i < words@.len() ==> symbols_match(#[trigger] self.words@[i], *words@[i])),
    {
        if words.len() > self.words.len() {
            return false;
        }
        let mut i: usize = 0;
        while i < words.len()
            invariant
                i <= words@.len() <= self.words@.len(),
                forall|j: int| 0 <= j < i ==> symbols_match(#[trigger] self.words@[j], *words@[j]),
            decreases words@.len() - i,
        {
            if !self.words[i].matches(words[i]) {
                return false;
            }
            i = i + 1;
        }
        true
    }

    /// Whether all of `O1`, `O2`, `O3` and `P` occur outside both oblique
    /// configurations.
    pub fn out_oblique(&self) -> (r: bool)
        ensures
            r == out_oblique_spec(self.words@),
    {
        if let Some(o1_index) = self.index(&o1()) {
            if let Some(o2_index) = self.index(&o2()) {
                if let Some(o3_index) = self.index(&o3()) {
                    if let Some(pro_index) = self.index(&pro()) {
                        if o1_index < o2_index && o2_index < pro_index && pro_index < o3_index
                            && o3_index - pro_index == 1 {
                            return false;
                        } else if o3_index < o2_index && o2_index < o1_index && o3_index < pro_index
                            && pro_index - o3_index == 1 {
                            return false;
                        } else {
                            return true;
                        }
                    }
                }
            }
        }
        false
    }
}

/// The name of a symbol's kind, as it stands in the corpus.
pub open spec fn base_name(sym: SurfaceSymbol) -> Seq<char> {
    match sym {
        SurfaceSymbol::Adv_ { .. } => seq!['A', 'd', 'v'],
        SurfaceSymbol::Aux => seq!['A', 'u', 'x'],
        SurfaceSymbol::Never => seq!['N', 'e', 'v', 'e', 'r'],
        SurfaceSymbol::Not => seq!['N', 'o', 't'],
        SurfaceSymbol::O1_ { .. } => seq!['O', '1'],
        SurfaceSymbol::O2_ { .. } => seq!['O', '2'],
        SurfaceSymbol::O3_ { .. } => seq!['O', '3'],
        SurfaceSymbol::P_ { .. } => seq!['P'],
        SurfaceSymbol::S_ { .. } => seq!['S'],
        SurfaceSymbol::Verb => seq!['V', 'e', 'r', 'b'],
        SurfaceSymbol::Ka => seq!['k', 'a'],
    }
}

/// The tag that marks a wh-word.
pub open spec fn wh_tag() -> Seq<char> {
    seq!['[', '+', 'W', 'H', ']']
}

/// The tag that marks a topic-marked (wa) word.
pub open spec fn wa_tag() -> Seq<char> {
    seq!['[', '+', 'W', 'A', ']']
}

/// The wh feature of a symbol (`False` for kinds without one).
pub open spec fn wh_of(sym: SurfaceSymbol) -> FeatureVal {
    match sym {
        SurfaceSymbol::Adv_ { wh, .. } | SurfaceSymbol::O1_ { wh, .. } | SurfaceSymbol::O2_ { wh, .. }
        | SurfaceSymbol::O3_ { wh, .. } | SurfaceSymbol::S_ { wh, .. } => wh,
        _ => FeatureVal::False,
    }
}

/// The wa feature of a symbol (`False` for kinds without one).
pub open spec fn wa_of(sym: SurfaceSymbol) -> FeatureVal {
    match sym {
        SurfaceSymbol::Adv_ { wa, .. } | SurfaceSymbol::O1_ { wa, .. } | SurfaceSymbol::O2_ { wa, .. }
        | SurfaceSymbol::O3_ { wa, .. } | SurfaceSymbol::S_ { wa, .. } | SurfaceSymbol::P_ { wa } => wa,
        _ => FeatureVal::False,
    }
}

/// The token of a symbol: its kind's name, then `[+WH]` and `[+WA]` for the
/// features that are `True` (a wildcard is written as absent).
pub open spec fn symbol_text(sym: SurfaceSymbol) -> Seq<char> {
    base_name(sym) + (if wh_of(sym) is True { wh_tag() } else { Seq::empty() }) + (if wa_of(sym) is True {
        wa_tag()
    } else {
        Seq::empty()
    })
}

/// `s` without the trailing `tag`, if it ends with it.
pub open spec fn strip_tag(s: Seq<char>, tag: Seq<char>) -> Option<Seq<char>> {
    if s.len() >= tag.len() && s.subrange(s.len() - tag.len(), s.len() as int) == tag {
        Some(s.subrange(0, s.len() - tag.len()))
    } else {
        None
    }
}

/// A feature value that is `True` or `False`.
pub open spec fn feature_of(on: bool) -> FeatureVal {
    if on { FeatureVal::True } else { FeatureVal::False }
}

/// The symbol named `base` with the given features, where such a token exists.
pub open spec fn symbol_of_parts(base: Seq<char>, wh: bool, wa: bool) -> Option<SurfaceSymbol> {
    if base == seq!['A', 'd', 'v'] {
        Some(SurfaceSymbol::Adv_ { wa: feature_of(wa), wh: feature_of(wh) })
    } else if base == seq!['O', '1'] {
        Some(SurfaceSymbol::O1_ { wa: feature_of(wa), wh: feature_of(wh) })
    } else if base == seq!['O', '2'] {
        Some(SurfaceSymbol::O2_ { wa: feature_of(wa), wh: feature_of(wh) })
    } else if base == seq!['O', '3'] {
        Some(SurfaceSymbol::O3_ { wa: feature_of(wa), wh: feature_of(wh) })
    } else if base == seq!['S'] {
        Some(SurfaceSymbol::S_ { wa: feature_of(wa), wh: feature_of(wh) })
    } else if base == seq!['P'] && !wh {
        Some(SurfaceSymbol::P_ { wa: feature_of(wa) })
    } else if wh || wa {
        None
    } else if base == seq!['A', 'u', 'x'] {
        Some(SurfaceSymbol::Aux)
    } else if base == seq!['N', 'e', 'v', 'e', 'r'] {
        Some(SurfaceSymbol::Never)
    } else if base == seq!['N', 'o', 't'] {
        Some(SurfaceSymbol::Not)
    } else if base == seq!['V', 'e', 'r', 'b'] {
        Some(SurfaceSymbol::Verb)
    } else if base == seq!['k', 'a'] {
        Some(SurfaceSymbol::Ka)
    } else {
        None
    }
}

/// The symbol that token `s` denotes: a kind's name followed by an optional
/// `[+WH]` and then an optional `[+WA]`.
pub open spec fn parse_symbol_spec(s: Seq<char>) -> Option<SurfaceSymbol> {
    let wa = strip_tag(s, wa_tag()) is Some;
    let rest = if wa { strip_tag(s, wa_tag())->0 } else { s };
    let wh = strip_tag(rest, wh_tag()) is Some;
    let base = if wh { strip_tag(rest, wh_tag())->0 } else { rest };
    symbol_of_parts(base, wh, wa)
}

/// Whether `s@[end - tag.len() .. end]` is `tag`.
fn tail_is(s: &str, end: usize, tag: &str) -> (r: bool)
    requires
        end <= s@.len(),
    ensures
        r == (end >= tag@.len() && s@.subrange(end - tag@.len(), end as int) == tag@),
{
    let t = tag.unicode_len();
    if end < t {
        return false;
    }
    let start = end - t;
    let mut i: usize = 0;
    while i < t
        invariant
            t == tag@.len(),
            start + t == end,
            end <= s@.len(),
            i <= t,
            forall|j: int| 0 <= j < i ==> s@[start + j] == tag@[j],
        decreases t - i,
    {
        if s.get_char(start + i) != tag.get_char(i) {
            assert(s@.subrange(start as int, end as int)[i as int] != tag@[i as int]);
            return false;
        }
        i = i + 1;
    }
    assert(s@.subrange(start as int, end as int) =~= tag@);
    true
}

/// Whether `s@[0 .. end]` is `name`.
fn head_is(s: &str, end: usize, name: &str) -> (r: bool)
    requires
        end <= s@.len(),
    ensures
        r == (s@.subrange(0, end as int) == name@),
{
    let n = name.unicode_len();
    n == end && tail_is(s, end, name)
}

impl SurfaceSymbol {
    /// The symbol that a corpus token denotes, or `None` for a token that is
    /// not one.
    pub fn parse(s: &str) -> (r: Option<SurfaceSymbol>)
        ensures
            r == parse_symbol_spec(s@),
    {
        proof {
            reveal_strlit("[+WA]");
            reveal_strlit("[+WH]");
            reveal_strlit("Adv");
            reveal_strlit("O1");
            reveal_strlit("O2");
            reveal_strlit("O3");
            reveal_strlit("S");
            reveal_strlit("P");
            reveal_strlit("Aux");
            reveal_strlit("Never");
            reveal_strlit("Not");
            reveal_strlit("Verb");
            reveal_strlit("ka");
            assert("[+WA]"@ =~= wa_tag());
            assert("[+WH]"@ =~= wh_tag());
            assert("Adv"@ =~= seq!['A', 'd', 'v']);
            assert("O1"@ =~= seq!['O', '1']);
            assert("O2"@ =~= seq!['O', '2']);
            assert("O3"@ =~= seq!['O', '3']);
            assert("S"@ =~= seq!['S']);
            assert("P"@ =~= seq!['P']);
            assert("Aux"@ =~= seq!['A', 'u', 'x']);
            assert("Never"@ =~= seq!['N', 'e', 'v', 'e', 'r']);
            assert("Not"@ =~= seq!['N', 'o', 't']);
            assert("Verb"@ =~= seq!['V', 'e', 'r', 'b']);
            assert("ka"@ =~= seq!['k', 'a']);
        }
        let mut end = s.unicode_len();
        let wa = tail_is(s, end, "[+WA]");
        if wa {
            end = end - 5;
        }
        let ghost rest = s@.subrange(0, end as int);
        let wh = tail_is(s, end, "[+WH]");
        proof {
            assert(wa ==> rest == strip_tag(s@, wa_tag())->0);
            assert(!wa ==> rest =~= s@);
            if wh {
                assert(rest.subrange(rest.len() - 5, rest.len() as int) =~= s@.subrange(end - 5, end as int));
            } else {
                if rest.len() >= 5 {
                    assert(rest.subrange(rest.len() - 5, rest.len() as int) =~= s@.subrange(end - 5, end as int));
                }
            }
        }
        if wh {
            end = end - 5;
        }
        proof {
            if wh {
                assert(s@.subrange(0, end as int) =~= rest.subrange(0, rest.len() - 5));
            }
        }
        let fwa = if wa { FeatureVal::True } else { FeatureVal::False };
        let fwh = if wh { FeatureVal::True } else { FeatureVal::False };
        if head_is(s, end, "Adv") {
            Some(SurfaceSymbol::Adv_ { wa: fwa, wh: fwh })
        } else if head_is(s, end, "O1") {
            Some(SurfaceSymbol::O1_ { wa: fwa, wh: fwh })
        } else if head_is(s, end, "O2") {
            Some(SurfaceSymbol::O2_ { wa: fwa, wh: fwh })
        } else if head_is(s, end, "O3") {
            Some(SurfaceSymbol::O3_ { wa: fwa, wh: fwh })
        } else if head_is(s, end, "S") {
            Some(SurfaceSymbol::S_ { wa: fwa, wh: fwh })
        } else if !wh && head_is(s, end, "P") {
            Some(SurfaceSymbol::P_ { wa: fwa })
        } else if wh || wa {
            None
        } else if head_is(s, end, "Aux") {
            Some(SurfaceSymbol::Aux)
        } else if head_is(s, end, "Never") {
            Some(SurfaceSymbol::Never)
        } else if head_is(s, end, "Not") {
            Some(SurfaceSymbol::Not)
        } else if head_is(s, end, "Verb") {
            Some(SurfaceSymbol::Verb)
        } else if head_is(s, end, "ka") {
            Some(SurfaceSymbol::Ka)
        } else {
            None
        }
    }
}

impl SurfaceSymbol {
    /// The corpus token of this symbol; a wildcard feature is written as absent.
    pub fn to_token(&self) -> (r: String)
        ensures
            r@ == symbol_text(*self),
    {
        proof {
            reveal_strlit("[+WA]");
            reveal_strlit("[+WH]");
            reveal_strlit("Adv");
            reveal_strlit("O1");
            reveal_strlit("O2");
            reveal_strlit("O3");
            reveal_strlit("S");
            reveal_strlit("P");
            reveal_strlit("Aux");
            reveal_strlit("Never");
            reveal_strlit("Not");
            reveal_strlit("Verb");
            reveal_strlit("ka");
            assert("[+WA]"@ =~= wa_tag());
            assert("[+WH]"@ =~= wh_tag());
            assert("Adv"@ =~= seq!['A', 'd', 'v']);
            assert("O1"@ =~= seq!['O', '1']);
            assert("O2"@ =~= seq!['O', '2']);
            assert("O3"@ =~= seq!['O', '3']);
            assert("S"@ =~= seq!['S']);
            assert("P"@ =~= seq!['P']);
            assert("Aux"@ =~= seq!['A', 'u', 'x']);
            assert("Never"@ =~= seq!['N', 'e', 'v', 'e', 'r']);
            assert("Not"@ =~= seq!['N', 'o', 't']);
            assert("Verb"@ =~= seq!['V', 'e', 'r', 'b']);
            assert("ka"@ =~= seq!['k', 'a']);
        }
        let (name, wh, wa) = match self {
            SurfaceSymbol::Adv_ { wa, wh } => ("Adv", *wh, *wa),
            SurfaceSymbol::Aux => ("Aux", FeatureVal::False, FeatureVal::False),
            SurfaceSymbol::Never => ("Never", FeatureVal::False, FeatureVal::False),
            SurfaceSymbol::Not => ("Not", FeatureVal::False, FeatureVal::False),
            SurfaceSymbol::O1_ { wa, wh } => ("O1", *wh, *wa),
            SurfaceSymbol::O2_ { wa, wh } => ("O2", *wh, *wa),
            SurfaceSymbol::O3_ { wa, wh } => ("O3", *wh, *wa),
            SurfaceSymbol::P_ { wa } => ("P", FeatureVal::False, *wa),
            SurfaceSymbol::S_ { wa, wh } => ("S", *wh, *wa),
            SurfaceSymbol::Verb => ("Verb", FeatureVal::False, FeatureVal::False),
            SurfaceSymbol::Ka => ("ka", FeatureVal::False, FeatureVal::False),
        };
        let mut t = String::from_str(name);
        if let FeatureVal::True = wh {
            t.append("[+WH]");
        }
        if let FeatureVal::True = wa {
            t.append("[+WA]");
        }
        proof {
            assert(t@ =~= symbol_text(*self));
        }
        t
    }
}

proof fn lemma_strip_appended(a: Seq<char>, tag: Seq<char>)
    ensures
        strip_tag(a + tag, tag) == Some(a),
{
    assert((a + tag).subrange(a.len() as int, (a + tag).len() as int) =~= tag);
    assert((a + tag).subrange(0, a.len() as int) =~= a);
}

/// Writing a symbol as its token and parsing the token gives back a symbol
/// equal to it under wildcard equality.
pub proof fn lemma_token_round_trip(sym: SurfaceSymbol)
    ensures
        parse_symbol_spec(symbol_text(sym)) matches Some(back) && symbols_match(back, sym),
{
    let base = base_name(sym);
    let with_wh = base + (if wh_of(sym) is True { wh_tag() } else { Seq::empty() });
    let text = symbol_text(sym);
    assert(base.len() >= 1 && base.last() != ']');
    if wa_of(sym) is True {
        lemma_strip_appended(with_wh, wa_tag());
    } else {
        assert(text =~= with_wh);
        if text.len() >= 5 {
            let tail = text.subrange(text.len() - 5, text.len() as int);
            if wh_of(sym) is True {
                assert(tail =~= wh_tag());
                assert(tail[3] != wa_tag()[3]);
            } else {
                assert(text =~= base);
                assert(tail[4] != wa_tag()[4]);
            }
        }
    }
    if wh_of(sym) is True {
        lemma_strip_appended(base, wh_tag());
    } else {
        assert(with_wh =~= base);
        if base.len() >= 5 {
            let tail = base.subrange(base.len() - 5, base.len() as int);
            assert(tail[4] != wh_tag()[4]);
        }
    }
}

/// What `str::trim` makes of `s`.
pub uninterp spec fn trimmed(s: Seq<char>) -> Seq<char>;

/// Relies on str::trim: `s` without leading and trailing whitespace; the
/// result depends on the characters of `s` alone.
#[verifier::external_body]
pub(crate) fn trim(s: &str) -> (r: &str)
    ensures
        r@ == trimmed(s@),
{
    s.trim()
}

/// The force that tag `s` denotes: `DEC`, `Q` or `IMP`.
pub open spec fn parse_illoc_spec(s: Seq<char>) -> Option<Illoc> {
    if s == seq!['Q'] {
        Some(Illoc::Q)
    } else if s == seq!['D', 'E', 'C'] {
        Some(Illoc::Dec)
    } else if s == seq!['I', 'M', 'P'] {
        Some(Illoc::Imp)
    } else {
        None
    }
}

impl Illoc {
    /// The force that a corpus tag denotes, or `None` for an unknown tag.
    pub fn parse(s: &str) -> (r: Option<Illoc>)
        ensures
            r == parse_illoc_spec(s@),
    {
        proof {
            reveal_strlit("Q");
            reveal_strlit("DEC");
            reveal_strlit("IMP");
            assert("Q"@ =~= seq!['Q']);
            assert("DEC"@ =~= seq!['D', 'E', 'C']);
            assert("IMP"@ =~= seq!['I', 'M', 'P']);
        }
        let n = s.unicode_len();
        proof {
            assert(s@.subrange(0, n as int) =~= s@);
        }
        if head_is(s, n, "Q") {
            Some(Illoc::Q)
        } else if head_is(s, n, "DEC") {
            Some(Illoc::Dec)
        } else if head_is(s, n, "IMP") {
            Some(Illoc::Imp)
        } else {
            None
        }
    }
}

/// The pieces of `s` between single spaces (two spaces in a row leave an
/// empty piece between them).
pub open spec fn split_spaces(s: Seq<char>) -> Seq<Seq<char>>
    decreases s.len(),
{
    if s.len() == 0 {
        seq![Seq::empty()]
    } else {
        let prev = split_spaces(s.drop_last());
        if s.last() == ' ' {
            prev.push(Seq::empty())
        } else {
            prev.update(prev.len() - 1, prev.last().push(s.last()))
        }
    }
}

proof fn lemma_split_nonempty(s: Seq<char>)
    ensures
        split_spaces(s).len() >= 1,
    decreases s.len(),
{
    if s.len() > 0 {
        lemma_split_nonempty(s.drop_last());
    }
}

/// The words of a space-separated list of tokens, if every token is one.
pub open spec fn parse_words_spec(s: Seq<char>) -> Option<Seq<SurfaceSymbol>> {
    let toks = split_spaces(s);
    if forall|k: int| 0 <= k < toks.len() ==> (#[trigger] parse_symbol_spec(toks[k])) is Some {
        Some(toks.map_values(|t: Seq<char>| parse_symbol_spec(t)->0))
    } else {
        None
    }
}

impl SurfaceForm {
    /// The declarative form whose words are the space-separated tokens of
    /// `s`, or `None` if some token is not a symbol.
    pub fn parse(s: &str) -> (r: Option<SurfaceForm>)
        ensures
            match r {
                Some(f) => f.illoc == Illoc::Dec && parse_words_spec(s@) == Some(f.words@),
                None => parse_words_spec(s@) is None,
            },
    {
        let n = s.unicode_len();
        let mut words: Vec<SurfaceSymbol> = Vec::new();
        let mut ok = true;
        let mut start: usize = 0;
        let mut i: usize = 0;
        let ghost mut toks: Seq<Seq<char>> = Seq::empty();
        assert(s@.take(0) =~= Seq::<char>::empty());
        assert(s@.subrange(0, 0) =~= Seq::<char>::empty());
        while i < n
            invariant
                n == s@.len(),
                start <= i <= n,
                split_spaces(s@.take(i as int)) == toks.push(s@.subrange(start as int, i as int)),
                ok ==> words@.len() == toks.len(),
                ok ==> forall|k: int| 0 <= k < toks.len() ==> parse_symbol_spec(toks[k]) == Some(#[trigger] words@[k]),
                !ok ==> exists|k: int| 0 <= k < toks.len() && (#[trigger] parse_symbol_spec(toks[k])) is None,
            decreases n - i,
        {
            let c = s.get_char(i);
            assert(s@.take(i + 1).drop_last() =~= s@.take(i as int));
            proof {
                lemma_split_nonempty(s@.take(i as int));
            }
            if c == ' ' {
                let tok = s.substring_char(start, i);
                match SurfaceSymbol::parse(tok) {
                    Some(w) => {
                        if ok {
                            words.push(w);
                        }
                    },
                    None => {
                        ok = false;
                    },
                }
                proof {
                    let old_toks = toks;
                    toks = toks.push(tok@);
                    assert(toks[old_toks.len() as int] == tok@);
                    assert(forall|k: int| 0 <= k < old_toks.len() ==> toks[k] == old_toks[k]);
                    assert(s@.subrange(i + 1, i + 1) =~= Seq::<char>::empty());
                }
                start = i + 1;
            } else {
                assert(s@.subrange(start as int, i + 1) =~= s@.subrange(start as int, i as int).push(c));
            }
            i = i + 1;
        }
        assert(s@.take(n as int) =~= s@);
        let tok = s.substring_char(start, n);
        match SurfaceSymbol::parse(tok) {
            Some(w) => {
                if ok {
                    words.push(w);
                }
            },
            None => {
                ok = false;
            },
        }
        proof {
            let old_toks = toks;
            toks = toks.push(tok@);
            assert(toks[old_toks.len() as int] == tok@);
            assert(forall|k: int| 0 <= k < old_toks.len() ==> toks[k] == old_toks[k]);
            assert(toks == split_spaces(s@));
        }
        if ok {
            let ghost m = toks.map_values(|t: Seq<char>| parse_symbol_spec(t)->0);
            assert forall|k: int| 0 <= k < toks.len() implies (#[trigger] parse_symbol_spec(toks[k])) is Some by {
                assert(parse_symbol_spec(toks[k]) == Some(words@[k]));
            }
            assert(words@ =~= m);
            Some(SurfaceForm { illoc: Illoc::Dec, words })
        } else {
            None
        }
    }
}

} // verus!
