//! The COLAG domain: which sentences each legal grammar generates, the
//! trigger labels and the surface form of each sentence.

use vstd::prelude::*;
use std::collections::{HashMap, HashSet};
use crate::grammar::{toggled, Grammar, Sentence};
use crate::triggers::{Trigger, TriggerMap, TriggerVec};
use crate::random::choose_grammar;
use crate::sentence::{parse_illoc_spec, parse_words_spec, trim, trimmed, Illoc, SurfaceForm, SurfaceSymbol};

verus! {

broadcast use vstd::std_specs::hash::group_hash_axioms;

/// Number of legal grammars in the corpus.
pub const NUM_GRAMMARS: usize = 3072;

/// The calibration grammar (English).
pub const ENGLISH: Grammar = 611;

/// Number of sentences of the calibration grammar.
pub const ENGLISH_SIZE: usize = 360;

/// Why loading a domain table failed.
#[derive(Clone, Copy, Debug, PartialEq, Eq, Structural)]
pub enum LoadError {
    /// The trigger string of this sentence is malformed.
    BadTriggerString(Sentence),
    /// The force tag of this sentence is unknown.
    BadIlloc(Sentence),
    /// A token of this sentence's surface form is not a symbol.
    BadSurfaceForm(Sentence),
    /// The table holds this many grammars, not the expected number.
    WrongGrammarCount(usize),
    /// The calibration grammar is missing.
    MissingEnglish,
    /// The calibration grammar has this many sentences, not the expected number.
    WrongEnglishSize(usize),
    /// This calibration sentence is missing from the calibration grammar.
    MissingEnglishSentence(Sentence),
    /// The trigger table labels this many sentences, not the expected number.
    WrongTriggerCount(usize),
}

/// A grammar outside the legal universe.
#[derive(Clone, Copy, Debug, PartialEq, Eq, Structural)]
pub struct IllegalGrammar {
    pub grammar: Grammar,
}

/// The table with sentence `s` added to the language of `g`.
pub open spec fn add_to_table(m: Map<Grammar, Set<Sentence>>, g: Grammar, s: Sentence) -> Map<Grammar, Set<Sentence>> {
    m.insert(g, if m.contains_key(g) { m[g].insert(s) } else { set![s] })
}

/// The table of a corpus file's `(grammar, sentence, tree)` rows.
pub open spec fn table_of_rows(rows: Seq<(Grammar, Sentence, u32)>) -> Map<Grammar, Set<Sentence>>
    decreases rows.len(),
{
    if rows.len() == 0 {
        Map::empty()
    } else {
        add_to_table(table_of_rows(rows.drop_last()), rows.last().0, rows.last().1)
    }
}

/// The table of a corpus file's rows holds exactly the grammars of its
/// rows, each with exactly the sentences of its rows.
pub proof fn lemma_table_of_rows_members(rows: Seq<(Grammar, Sentence, u32)>)
    ensures
        forall|g: Grammar| table_of_rows(rows).contains_key(g) <==> exists|i: int| 0 <= i < rows.len() && (#[trigger] rows[i]).0 == g,
        forall|g: Grammar, s: Sentence| table_of_rows(rows).contains_key(g) ==> (#[trigger] table_of_rows(rows)[g].contains(s)
            <==> exists|i: int| 0 <= i < rows.len() && (#[trigger] rows[i]).0 == g && rows[i].1 == s),
    decreases rows.len(),
{
    if rows.len() > 0 {
        let prev = rows.drop_last();
        lemma_table_of_rows_members(prev);
        let last = rows.len() - 1;
        let t = table_of_rows(prev);
        assert(table_of_rows(rows) == add_to_table(t, rows[last].0, rows[last].1));
        assert forall|i: int| 0 <= i < prev.len() implies #[trigger] prev[i] == rows[i] by {}
        assert forall|g: Grammar| table_of_rows(rows).contains_key(g) <==> exists|i: int| 0 <= i < rows.len() && (#[trigger] rows[i]).0 == g by {
            if exists|i: int| 0 <= i < rows.len() && (#[trigger] rows[i]).0 == g {
                let i = choose|i: int| 0 <= i < rows.len() && (#[trigger] rows[i]).0 == g;
                if i < last {
                    assert(prev[i].0 == g);
                }
            }
            if table_of_rows(rows).contains_key(g) && g != rows[last].0 {
                assert(t.contains_key(g));
                let i = choose|i: int| 0 <= i < prev.len() && (#[trigger] prev[i]).0 == g;
                assert(rows[i].0 == g);
            }
        }
        assert forall|g: Grammar, s: Sentence| table_of_rows(rows).contains_key(g) implies (#[trigger] table_of_rows(rows)[g].contains(s)
            <==> exists|i: int| 0 <= i < rows.len() && (#[trigger] rows[i]).0 == g && rows[i].1 == s) by {
            if exists|i: int| 0 <= i < rows.len() && (#[trigger] rows[i]).0 == g && rows[i].1 == s {
                let i = choose|i: int| 0 <= i < rows.len() && (#[trigger] rows[i]).0 == g && rows[i].1 == s;
                if i < last {
                    assert(prev[i].0 == g && prev[i].1 == s);
                }
            }
            if table_of_rows(rows)[g].contains(s) && !(g == rows[last].0 && s == rows[last].1) {
                assert(t.contains_key(g) && t[g].contains(s));
                let i = choose|i: int| 0 <= i < prev.len() && (#[trigger] prev[i]).0 == g && prev[i].1 == s;
                assert(rows[i].0 == g && rows[i].1 == s);
            }
        }
    }
}

/// The sentences that must be in the calibration language.
pub open spec fn english_samples() -> Seq<Sentence> {
    seq![3138, 1970, 5871, 6923, 1969]
}

/// The checks that a loaded corpus table must pass, in order; `None` when
/// all pass.
pub open spec fn calibration_error(m: Map<Grammar, Set<Sentence>>) -> Option<LoadError> {
    if m.len() != NUM_GRAMMARS {
        Some(LoadError::WrongGrammarCount(m.len() as usize))
    } else if !m.contains_key(ENGLISH) {
        Some(LoadError::MissingEnglish)
    } else if m[ENGLISH].len() != ENGLISH_SIZE {
        Some(LoadError::WrongEnglishSize(m[ENGLISH].len() as usize))
    } else if exists|i: int| 0 <= i < 5 && !m[ENGLISH].contains(#[trigger] english_samples()[i]) {
        let i = choose|i: int| 0 <= i < 5 && !m[ENGLISH].contains(#[trigger] english_samples()[i])
            && forall|j: int| 0 <= j < i ==> m[ENGLISH].contains(#[trigger] english_samples()[j]);
        Some(LoadError::MissingEnglishSentence(english_samples()[i]))
    } else {
        None
    }
}

/// What `parses(g, s)` answers on the table `m`.
pub open spec fn parses_spec(m: Map<Grammar, Set<Sentence>>, g: Grammar, s: Sentence) -> Result<bool, IllegalGrammar> {
    if m.contains_key(g) {
        Ok(m[g].contains(s))
    } else {
        Err(IllegalGrammar { grammar: g })
    }
}

/// The model of a surface form: its force and its words.
pub open spec fn form_model(f: SurfaceForm) -> (Illoc, Seq<SurfaceSymbol>) {
    (f.illoc, f.words@)
}

/// Inserting a surface file's `(sentence, force, symbols)` rows in order
/// into `base`, both columns trimmed first, up to the first row that does
/// not parse: the table reached, and that row's error if there is one.
pub open spec fn form_rows_load(
    base: Map<Sentence, (Illoc, Seq<SurfaceSymbol>)>,
    rows: Seq<(Sentence, Seq<char>, Seq<char>)>,
) -> (Map<Sentence, (Illoc, Seq<SurfaceSymbol>)>, Option<LoadError>)
    decreases rows.len(),
{
    if rows.len() == 0 {
        (base, None)
    } else {
        let (s, illoc, form) = rows[0];
        match parse_illoc_spec(trimmed(illoc)) {
            None => (base, Some(LoadError::BadIlloc(s))),
            Some(i) => match parse_words_spec(trimmed(form)) {
                None => (base, Some(LoadError::BadSurfaceForm(s))),
                Some(w) => form_rows_load(base.insert(s, (i, w)), rows.drop_first()),
            },
        }
    }
}

/// Flipping parameter `p` of generator `g` gives a legal grammar that is not
/// among `generators`.
pub open spec fn min_pair_outside(legal: Set<Grammar>, generators: Seq<Grammar>, g: Grammar, p: int) -> bool {
    let m = (g ^ crate::grammar::param_bit(p)) as u16;
    !generators.contains(m) && legal.contains(m)
}

/// The COLAG domain.
pub struct Colag {
    language: HashMap<Grammar, HashSet<Sentence>>,
    sentence_lists: HashMap<Grammar, Vec<Sentence>>,
    grammars: Vec<Grammar>,
    trigger: TriggerMap,
    surface_form: HashMap<Sentence, SurfaceForm>,
}

impl Colag {
    /// The language of each legal grammar.
    pub closed spec fn languages(&self) -> Map<Grammar, Set<Sentence>> {
        self.language@.map_values(|s: HashSet<Sentence>| s@)
    }

    /// The legal grammars.
    pub open spec fn legal(&self) -> Set<Grammar> {
        self.languages().dom()
    }

    /// The trigger labels of each sentence.
    pub closed spec fn trigger_table(&self) -> Map<Sentence, Seq<Trigger>> {
        self.trigger.table()
    }

    /// The surface form of each sentence.
    pub closed spec fn surface_forms(&self) -> Map<Sentence, (Illoc, Seq<SurfaceSymbol>)> {
        self.surface_form@.map_values(|f: SurfaceForm| form_model(f))
    }

    /// The ordered sentence list of each grammar, and the list of legal
    /// grammars, agree with the languages; every language is non-empty.
    pub closed spec fn wf(&self) -> bool {
        &&& self.sentence_lists@.dom() == self.language@.dom()
        &&& forall|g: Grammar| #[trigger] self.language@.contains_key(g) ==> {
            &&& self.sentence_lists@[g]@.to_set() == self.language@[g]@
            &&& self.sentence_lists@[g]@.no_duplicates()
            &&& self.sentence_lists@[g]@.len() > 0
        }
        &&& self.grammars@.to_set() == self.language@.dom()
        &&& self.grammars@.no_duplicates()
    }

    /// An empty domain.
    pub fn new() -> (r: Colag)
        ensures
            r.wf(),
            r.languages() == Map::<Grammar, Set<Sentence>>::empty(),
            r.trigger_table() == Map::<Sentence, Seq<Trigger>>::empty(),
            r.surface_forms() == Map::<Sentence, (Illoc, Seq<SurfaceSymbol>)>::empty(),
    {
        let r = Colag {
            language: HashMap::new(),
            sentence_lists: HashMap::new(),
            grammars: Vec::new(),
            trigger: TriggerMap::new(),
            surface_form: HashMap::new(),
        };
        assert(r.languages() =~= Map::<Grammar, Set<Sentence>>::empty());
        assert(r.surface_forms() =~= Map::<Sentence, (Illoc, Seq<SurfaceSymbol>)>::empty());
        assert(r.grammars@.to_set() =~= r.language@.dom());
        r
    }

    /// Records that grammar `g` generates sentence `s`.
    pub fn add_sentence(&mut self, g: Grammar, s: Sentence)
        requires
            old(self).wf(),
        ensures
            final(self).wf(),
            final(self).languages() == add_to_table(old(self).languages(), g, s),
            final(self).trigger_table() == old(self).trigger_table(),
            final(self).surface_forms() == old(self).surface_forms(),
    {
        let ghost old_lang = self.language@;
        let ghost old_lists = self.sentence_lists@;
        if self.language.contains_key(&g) {
            let mut set = self.language.remove(&g).unwrap();
            let fresh = set.insert(s);
            self.language.insert(g, set);
            if fresh {
                let mut list = self.sentence_lists.remove(&g).unwrap();
                let ghost old_list = list@;
                list.push(s);
                proof {
                    old_list.lemma_push_to_set_commute(s);
                    assert(!old_list.contains(s)) by {
                        if old_list.contains(s) {
                            assert(old_list.to_set().contains(s));
                        }
                    }
                    assert forall|i: int, j: int| 0 <= i < list@.len() && 0 <= j < list@.len() && i != j
                        implies list@[i] != list@[j] by {
                        if i < old_list.len() && j < old_list.len() {
                        } else if i == old_list.len() {
                            assert(old_list[j] == list@[j]);
                        } else {
                            assert(old_list[i] == list@[i]);
                        }
                    }
                }
                self.sentence_lists.insert(g, list);
            }
            proof {
                assert(self.language@.dom() =~= old_lang.dom());
                assert(self.sentence_lists@.dom() =~= old_lists.dom());
                if !fresh {
                    assert(self.language@[g]@ =~= old_lang[g]@);
                }
                assert forall|h: Grammar| #[trigger] self.language@.contains_key(h) implies {
                    &&& self.sentence_lists@[h]@.to_set() == self.language@[h]@
                    &&& self.sentence_lists@[h]@.no_duplicates()
                    &&& self.sentence_lists@[h]@.len() > 0
                } by {
                    if h != g {
                        assert(self.language@[h] == old_lang[h]);
                        assert(self.sentence_lists@[h] == old_lists[h]);
                    }
                }
            }
        } else {
            let mut set = HashSet::new();
            set.insert(s);
            self.language.insert(g, set);
            let mut list = Vec::new();
            list.push(s);
            self.sentence_lists.insert(g, list);
            let ghost old_grammars = self.grammars@;
            self.grammars.push(g);
            proof {
                assert(set@ =~= set![s]);
                Seq::<Sentence>::empty().lemma_push_to_set_commute(s);
                assert(Seq::<Sentence>::empty().push(s) =~= list@);
                assert(Seq::<Sentence>::empty().to_set() =~= Set::<Sentence>::empty());
                assert(list@.to_set() =~= set![s]);
                old_grammars.lemma_push_to_set_commute(g);
                assert(self.language@.dom() =~= old_lang.dom().insert(g));
                assert(self.sentence_lists@.dom() =~= old_lists.dom().insert(g));
                assert forall|h: Grammar| #[trigger] self.language@.contains_key(h) implies {
                    &&& self.sentence_lists@[h]@.to_set() == self.language@[h]@
                    &&& self.sentence_lists@[h]@.no_duplicates()
                    &&& self.sentence_lists@[h]@.len() > 0
                } by {
                    if h != g {
                        assert(self.language@[h] == old_lang[h]);
                        assert(self.sentence_lists@[h] == old_lists[h]);
                    }
                }
                assert(!old_grammars.contains(g)) by {
                    if old_grammars.contains(g) {
                        assert(old_grammars.to_set().contains(g));
                    }
                }
                assert forall|i: int, j: int| 0 <= i < self.grammars@.len() && 0 <= j < self.grammars@.len() && i != j
                    implies self.grammars@[i] != self.grammars@[j] by {
                    if i < old_grammars.len() && j < old_grammars.len() {
                    } else if i == old_grammars.len() {
                        assert(old_grammars[j] == self.grammars@[j]);
                    } else {
                        assert(old_grammars[i] == self.grammars@[i]);
                    }
                }
            }
        }
        proof {
            assert(self.languages() =~= add_to_table(old(self).languages(), g, s));
        }
    }

    /// The domain whose languages are built from a corpus file's
    /// `(grammar, sentence, tree)` rows; the tree is ignored.
    pub fn from_rows(rows: &Vec<(Grammar, Sentence, u32)>) -> (r: Colag)
        ensures
            r.wf(),
            r.languages() == table_of_rows(rows@),
            r.trigger_table() == Map::<Sentence, Seq<Trigger>>::empty(),
            r.surface_forms() == Map::<Sentence, (Illoc, Seq<SurfaceSymbol>)>::empty(),
    {
        let mut domain = Colag::new();
        let mut i: usize = 0;
        while i < rows.len()
            invariant
                i <= rows@.len(),
                domain.wf(),
                domain.languages() == table_of_rows(rows@.take(i as int)),
                domain.trigger_table() == Map::<Sentence, Seq<Trigger>>::empty(),
                domain.surface_forms() == Map::<Sentence, (Illoc, Seq<SurfaceSymbol>)>::empty(),
            decreases rows@.len() - i,
        {
            assert(rows@.take(i + 1).drop_last() =~= rows@.take(i as int));
            let (g, s, _tree) = rows[i];
            domain.add_sentence(g, s);
            i = i + 1;
        }
        assert(rows@.take(i as int) =~= rows@);
        domain
    }

    /// The set of sentences that `g` generates, or `IllegalGrammar(g)`.
    pub fn language(&self, g: &Grammar) -> (r: Result<&HashSet<Sentence>, IllegalGrammar>)
        ensures
            match r {
                Ok(set) => self.legal().contains(*g) && set@ == self.languages()[*g],
                Err(e) => !self.legal().contains(*g) && e.grammar == *g,
            },
    {
        match self.language.get(g) {
            Some(set) => Ok(set),
            None => Err(IllegalGrammar { grammar: *g }),
        }
    }

    /// The sentences that `g` generates as a list without repeats, in the
    /// order they were first loaded, or `IllegalGrammar(g)`.
    pub fn language_vec(&self, g: &Grammar) -> (r: Result<&Vec<Sentence>, IllegalGrammar>)
        requires
            self.wf(),
        ensures
            match r {
                Ok(v) => self.legal().contains(*g) && v@.to_set() == self.languages()[*g]
                    && v@.no_duplicates() && v@.len() > 0,
                Err(e) => !self.legal().contains(*g) && e.grammar == *g,
            },
    {
        match self.sentence_lists.get(g) {
            Some(v) => Ok(v),
            None => Err(IllegalGrammar { grammar: *g }),
        }
    }

    /// Whether `g` generates `s`, or `IllegalGrammar(g)`.
    pub fn parses(&self, g: &Grammar, s: &Sentence) -> (r: Result<bool, IllegalGrammar>)
        ensures
            r == parses_spec(self.languages(), *g, *s),
    {
        match self.language.get(g) {
            None => Err(IllegalGrammar { grammar: *g }),
            Some(sents) => Ok(sents.contains(s)),
        }
    }

    /// One of the legal grammars, drawn uniformly by `rng`.
    pub fn random_grammar(&self, rng: &mut rand::XorShiftRng) -> (r: Grammar)
        requires
            self.wf(),
            self.legal().len() > 0,
        ensures
            self.legal().contains(r),
    {
        proof {
            if self.grammars@.len() == 0 {
                assert(self.grammars@.to_set() =~= Set::<Grammar>::empty());
                assert(self.legal() =~= self.language@.dom());
            }
        }
        match choose_grammar(rng, &self.grammars) {
            Some(g) => {
                proof {
                    assert(self.grammars@.to_set().contains(g));
                    assert(self.legal() =~= self.language@.dom());
                }
                g
            },
            None => {
                proof {
                    assert(false);
                }
                0
            },
        }
    }

    /// Checks the loaded table against the corpus' known shape: the number
    /// of grammars, the size of the calibration language and some of its
    /// sentences.
    pub fn check_calibration(&self) -> (r: Result<(), LoadError>)
        ensures
            match calibration_error(self.languages()) {
                None => r is Ok,
                Some(e) => r == Err::<(), LoadError>(e),
            },
    {
        proof {
            assert(self.languages().dom() =~= self.language@.dom());
        }
        let n = self.language.len();
        if n != NUM_GRAMMARS {
            return Err(LoadError::WrongGrammarCount(n));
        }
        let english = match self.language.get(&ENGLISH) {
            Some(e) => e,
            None => {
                return Err(LoadError::MissingEnglish);
            },
        };
        let size = english.len();
        if size != ENGLISH_SIZE {
            return Err(LoadError::WrongEnglishSize(size));
        }
        let samples: [Sentence; 5] = [3138, 1970, 5871, 6923, 1969];
        assert(samples@ =~= english_samples());
        let mut i: usize = 0;
        while i < 5
            invariant
                i <= 5,
                samples@ == english_samples(),
                self.languages().contains_key(ENGLISH),
                self.languages().len() == NUM_GRAMMARS,
                self.languages()[ENGLISH].len() == ENGLISH_SIZE,
                english@ == self.languages()[ENGLISH],
                forall|j: int| 0 <= j < i ==> english@.contains(#[trigger] english_samples()[j]),
            decreases 5 - i,
        {
            if !english.contains(&samples[i]) {
                proof {
                    let m = self.languages();
                    assert(0 <= i < 5 && !m[ENGLISH].contains(english_samples()[i as int])
                        && forall|j: int| 0 <= j < i ==> m[ENGLISH].contains(#[trigger] english_samples()[j]));
                    let k = choose|k: int| 0 <= k < 5 && !m[ENGLISH].contains(#[trigger] english_samples()[k])
                        && forall|j: int| 0 <= j < k ==> m[ENGLISH].contains(#[trigger] english_samples()[j]);
                    assert(0 <= k < 5 && !m[ENGLISH].contains(english_samples()[k])
                        && forall|j: int| 0 <= j < k ==> m[ENGLISH].contains(#[trigger] english_samples()[j]));
                    if k < i {
                        assert(english@.contains(english_samples()[k]));
                    } else if k > i {
                        assert(m[ENGLISH].contains(english_samples()[i as int]));
                    }
                    assert(k == i);
                    assert(m.len() == NUM_GRAMMARS);
                    assert(m[ENGLISH].len() == ENGLISH_SIZE);
                    assert(calibration_error(m) == Some(LoadError::MissingEnglishSentence(samples[i as int])));
                }
                return Err(LoadError::MissingEnglishSentence(samples[i]));
            }
            i = i + 1;
        }
        Ok(())
    }

    /// The trigger labels of each sentence.
    pub fn trigger_map(&self) -> (r: &TriggerMap)
        ensures
            r.table() == self.trigger_table(),
    {
        &self.trigger
    }

    /// Replaces the trigger labels.
    pub fn set_triggers(&mut self, t: TriggerMap)
        requires
            old(self).wf(),
        ensures
            final(self).wf(),
            final(self).languages() == old(self).languages(),
            final(self).trigger_table() == t.table(),
            final(self).surface_forms() == old(self).surface_forms(),
    {
        self.trigger = t;
    }

    /// The trigger labels of `s`, which the table must hold.
    pub fn triggers(&self, s: &Sentence) -> (r: &TriggerVec)
        requires
            self.trigger_table().contains_key(*s),
        ensures
            r@ == self.trigger_table()[*s],
    {
        self.trigger.sentence(s).unwrap()
    }

    /// Adds the rows of a surface-form file in order, each a sentence, its
    /// force tag and its space-separated symbols; stops at the first row
    /// that does not parse.
    pub fn add_surface_rows(&mut self, rows: &Vec<(Sentence, String, String)>) -> (r: Result<(), LoadError>)
        requires
            old(self).wf(),
        ensures
            final(self).wf(),
            final(self).languages() == old(self).languages(),
            final(self).trigger_table() == old(self).trigger_table(),
            ({
                let load = form_rows_load(
                    old(self).surface_forms(),
                    rows@.map_values(|x: (Sentence, String, String)| (x.0, x.1@, x.2@)),
                );
                &&& final(self).surface_forms() == load.0
                &&& match load.1 {
                    None => r is Ok,
                    Some(e) => r == Err::<(), LoadError>(e),
                }
            }),
    {
        let ghost rs = rows@.map_values(|x: (Sentence, String, String)| (x.0, x.1@, x.2@));
        let mut i: usize = 0;
        assert(rs.skip(0) =~= rs);
        while i < rows.len()
            invariant
                i <= rows@.len(),
                self.wf(),
                self.languages() == old(self).languages(),
                self.trigger_table() == old(self).trigger_table(),
                rs == rows@.map_values(|x: (Sentence, String, String)| (x.0, x.1@, x.2@)),
                form_rows_load(old(self).surface_forms(), rs) == form_rows_load(self.surface_forms(), rs.skip(i as int)),
            decreases rows@.len() - i,
        {
            let row = &rows[i];
            assert(rs.skip(i as int)[0] == (row.0, row.1@, row.2@));
            assert(rs.skip(i as int).drop_first() =~= rs.skip(i + 1));
            let illoc = match Illoc::parse(trim(row.1.as_str())) {
                Some(x) => x,
                None => {
                    return Err(LoadError::BadIlloc(row.0));
                },
            };
            let mut form = match SurfaceForm::parse(trim(row.2.as_str())) {
                Some(f) => f,
                None => {
                    return Err(LoadError::BadSurfaceForm(row.0));
                },
            };
            form.illoc = illoc;
            let ghost before = self.surface_forms();
            self.surface_form.insert(row.0, form);
            assert(self.surface_forms() =~= before.insert(row.0, (illoc, form.words@)));
            i = i + 1;
        }
        assert(rs.skip(i as int) =~= Seq::<(Sentence, Seq<char>, Seq<char>)>::empty());
        Ok(())
    }

    /// Whether `g` lies outside the legal universe.
    pub fn illegal_grammar(&self, g: &Grammar) -> (r: bool)
        ensures
            r == !self.legal().contains(*g),
    {
        !self.language.contains_key(g)
    }

    /// Whether parameter `param` of some generator can be flipped to give a
    /// legal grammar that is not itself a generator (`Ambiguous`); if no
    /// generator's minimal pair is such a grammar, the sentence tells nothing
    /// about the parameter (`Irrelevant`).
    pub fn ambig_or_irrel(&self, generators: &Vec<Grammar>, param: usize) -> (r: Trigger)
        requires
            param < crate::grammar::NUM_PARAMS,
        ensures
            r == (if exists|i: int| 0 <= i < generators@.len() && min_pair_outside(self.legal(), generators@, #[trigger] generators@[i], param as int) {
                Trigger::Ambiguous
            } else {
                Trigger::Irrelevant
            }),
    {
        let mut i: usize = 0;
        while i < generators.len()
            invariant
                i <= generators@.len(),
                param < crate::grammar::NUM_PARAMS,
                forall|j: int| 0 <= j < i ==> !min_pair_outside(self.legal(), generators@, #[trigger] generators@[j], param as int),
            decreases generators@.len() - i,
        {
            let min_pair = toggled(&generators[i], param);
            let mut found = false;
            let mut k: usize = 0;
            while k < generators.len()
                invariant
                    k <= generators@.len(),
                    found == exists|j: int| 0 <= j < k && generators@[j] == min_pair,
                decreases generators@.len() - k,
            {
                if generators[k] == min_pair {
                    found = true;
                }
                k = k + 1;
            }
            if !found && !self.illegal_grammar(&min_pair) {
                assert(min_pair_outside(self.legal(), generators@, generators@[i as int], param as int));
                return Trigger::Ambiguous;
            }
            i = i + 1;
        }
        Trigger::Irrelevant
    }

    /// Every sentence of every language.
    pub fn all_sentences(&self) -> (r: HashSet<Sentence>)
        requires
            self.wf(),
        ensures
            forall|s: Sentence| r@.contains(s) <==> exists|g: Grammar| #[trigger] self.legal().contains(g) && self.languages()[g].contains(s),
    {
        let mut all_sents: HashSet<Sentence> = HashSet::new();
        let mut i: usize = 0;
        while i < self.grammars.len()
            invariant
                self.wf(),
                i <= self.grammars@.len(),
                forall|s: Sentence| all_sents@.contains(s) <==> exists|j: int| 0 <= j < i && #[trigger] self.language@[self.grammars@[j]]@.contains(s),
            decreases self.grammars@.len() - i,
        {
            let g = self.grammars[i];
            assert(self.grammars@.to_set().contains(g));
            let list = self.sentence_lists.get(&g).unwrap();
            let ghost before = all_sents@;
            let mut k: usize = 0;
            while k < list.len()
                invariant
                    k <= list@.len(),
                    all_sents@ == before.union(list@.take(k as int).to_set()),
                decreases list@.len() - k,
            {
                all_sents.insert(list[k]);
                assert(list@.take(k + 1) =~= list@.take(k as int).push(list@[k as int]));
                proof {
                    list@.take(k as int).lemma_push_to_set_commute(list@[k as int]);
                }
                assert(all_sents@ =~= before.union(list@.take(k + 1).to_set()));
                k = k + 1;
            }
            assert(list@.take(k as int) =~= list@);
            assert forall|s: Sentence| all_sents@.contains(s) <==> exists|j: int| 0 <= j < i + 1 && #[trigger] self.language@[self.grammars@[j]]@.contains(s) by {
                if self.language@[g]@.contains(s) {
                    assert(self.language@[self.grammars@[i as int]]@.contains(s));
                }
                if exists|j: int| 0 <= j < i + 1 && #[trigger] self.language@[self.grammars@[j]]@.contains(s) {
                    let j = choose|j: int| 0 <= j < i + 1 && #[trigger] self.language@[self.grammars@[j]]@.contains(s);
                    if j == i {
                        assert(list@.to_set().contains(s));
                    }
                }
            }
            i = i + 1;
        }
        assert forall|s: Sentence| all_sents@.contains(s) <==> exists|g: Grammar| #[trigger] self.legal().contains(g) && self.languages()[g].contains(s) by {
            assert(self.legal() =~= self.language@.dom());
            if all_sents@.contains(s) {
                let j = choose|j: int| 0 <= j < i && #[trigger] self.language@[self.grammars@[j]]@.contains(s);
                let g = self.grammars@[j];
                assert(self.grammars@.to_set().contains(g));
                assert(self.legal().contains(g) && self.languages()[g].contains(s));
            }
            if exists|g: Grammar| #[trigger] self.legal().contains(g) && self.languages()[g].contains(s) {
                let g = choose|g: Grammar| #[trigger] self.legal().contains(g) && self.languages()[g].contains(s);
                assert(self.grammars@.to_set().contains(g));
                let j = choose|j: int| 0 <= j < self.grammars@.len() && self.grammars@[j] == g;
                assert(self.language@[self.grammars@[j]]@.contains(s));
            }
        }
        all_sents
    }

    /// Number of legal grammars.
    pub fn num_grammars(&self) -> (r: usize)
        ensures
            r == self.legal().len(),
    {
        assert(self.legal() =~= self.language@.dom());
        self.language.len()
    }

    /// Whether the table holds a surface form for `s`.
    pub fn has_surface_form(&self, s: &Sentence) -> (r: bool)
        ensures
            r == self.surface_forms().contains_key(*s),
    {
        self.surface_form.contains_key(s)
    }

    /// The surface form of `s`, which the table must hold.
    pub fn surface_form(&self, s: &Sentence) -> (r: &SurfaceForm)
        requires
            self.surface_forms().contains_key(*s),
        ensures
            form_model(*r) == self.surface_forms()[*s],
    {
        self.surface_form.get(s).unwrap()
    }
}

/// What the learners share: the domain, read-only.
pub struct Environment {
    pub domain: Colag,
}

/// For a legal grammar, `parses` answers exactly whether the sentence is in
/// the grammar's language.
pub proof fn lemma_parses_iff_member(d: &Colag, g: Grammar, s: Sentence)
    requires
        d.legal().contains(g),
    ensures
        parses_spec(d.languages(), g, s) == Ok::<bool, IllegalGrammar>(true) <==> d.languages()[g].contains(s),
{
}

/// Loading the same corpus rows twice gives equal language tables.
pub proof fn lemma_load_deterministic(rows: Seq<(Grammar, Sentence, u32)>, a: &Colag, b: &Colag)
    requires
        a.languages() == table_of_rows(rows),
        b.languages() == table_of_rows(rows),
    ensures
        a.languages() == b.languages(),
{
}

} // verus!
