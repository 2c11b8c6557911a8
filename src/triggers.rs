//! Per-parameter trigger labels of sentences, read from strings of thirteen
//! characters over `0`, `1`, `*` and `~`.

use vstd::prelude::*;
use std::collections::HashMap;
use crate::grammar::{NUM_PARAMS, Sentence};
use crate::domain::LoadError;

verus! {

broadcast use vstd::std_specs::hash::group_hash_axioms;

/// Number of sentences that the corpus' trigger file labels.
pub const TRIGGER_SENTENCES: usize = 48077;

/// What a sentence tells about one parameter.
#[derive(Clone, Copy, Debug, PartialEq, Eq, Structural)]
pub enum Trigger {
    On,
    Off,
    Ambiguous,
    Irrelevant,
}

/// One trigger label per parameter.
pub type TriggerVec = [Trigger; NUM_PARAMS];

/// The label that character `c` stands for.
pub open spec fn trigger_of_char(c: char) -> Option<Trigger> {
    if c == '0' {
        Some(Trigger::Off)
    } else if c == '1' {
        Some(Trigger::On)
    } else if c == '*' {
        Some(Trigger::Ambiguous)
    } else if c == '~' {
        Some(Trigger::Irrelevant)
    } else {
        None
    }
}

/// The labels that a trigger string stands for: exactly thirteen characters,
/// each one of `0`, `1`, `*`, `~`.
pub open spec fn parse_triggers_spec(s: Seq<char>) -> Option<Seq<Trigger>> {
    if s.len() == NUM_PARAMS && forall|i: int| 0 <= i < s.len() ==> (#[trigger] trigger_of_char(s[i])) is Some {
        Some(s.map_values(|c: char| trigger_of_char(c)->0))
    } else {
        None
    }
}

/// Reads a trigger string into its labels, or `None` if it is malformed.
pub fn parse_trigger_string(s: &str) -> (r: Option<TriggerVec>)
    ensures
        match r {
            Some(v) => parse_triggers_spec(s@) == Some(v@),
            None => parse_triggers_spec(s@) is None,
        },
{
    let n = s.unicode_len();
    if n != NUM_PARAMS {
        return None;
    }
    let mut v: TriggerVec = [Trigger::Irrelevant; NUM_PARAMS];
    let mut i: usize = 0;
    while i < NUM_PARAMS
        invariant
            n == s@.len() == NUM_PARAMS,
            i <= NUM_PARAMS,
            forall|j: int| 0 <= j < i ==> trigger_of_char(s@[j]) == Some(#[trigger] v@[j]),
        decreases NUM_PARAMS - i,
    {
        let c = s.get_char(i);
        let t = if c == '0' {
            Trigger::Off
        } else if c == '1' {
            Trigger::On
        } else if c == '*' {
            Trigger::Ambiguous
        } else if c == '~' {
            Trigger::Irrelevant
        } else {
            assert(trigger_of_char(s@[i as int]) is None);
            return None;
        };
        v[i] = t;
        i = i + 1;
    }
    proof {
        assert forall|j: int| 0 <= j < s@.len() implies (#[trigger] trigger_of_char(s@[j])) is Some by {
            assert(trigger_of_char(s@[j]) == Some(v@[j]));
        }
        assert(v@ =~= s@.map_values(|c: char| trigger_of_char(c)->0));
    }
    Some(v)
}

/// Inserting `rows` in order into `base` up to the first malformed trigger
/// string: the table reached, and that row's sentence if there is one.
pub open spec fn trigger_rows_load(base: Map<Sentence, Seq<Trigger>>, rows: Seq<(Sentence, Seq<char>)>) -> (
    Map<Sentence, Seq<Trigger>>,
    Option<Sentence>,
)
    decreases rows.len(),
{
    if rows.len() == 0 {
        (base, None)
    } else {
        match parse_triggers_spec(rows[0].1) {
            Some(v) => trigger_rows_load(base.insert(rows[0].0, v), rows.drop_first()),
            None => (base, Some(rows[0].0)),
        }
    }
}

/// The result that loading trigger rows reports for a stopping row.
pub open spec fn trigger_load_result(bad: Option<Sentence>) -> Result<(), LoadError> {
    match bad {
        None => Ok(()),
        Some(s) => Err(LoadError::BadTriggerString(s)),
    }
}

/// Sentence to trigger labels.
pub struct TriggerMap(HashMap<Sentence, TriggerVec>);

impl TriggerMap {
    /// The labels of each sentence in the table.
    pub closed spec fn table(&self) -> Map<Sentence, Seq<Trigger>> {
        self.0@.map_values(|v: TriggerVec| v@)
    }

    /// An empty table.
    pub fn new() -> (r: TriggerMap)
        ensures
            r.table() == Map::<Sentence, Seq<Trigger>>::empty(),
    {
        let r = TriggerMap(HashMap::new());
        assert(r.table() =~= Map::<Sentence, Seq<Trigger>>::empty());
        r
    }

    /// The labels of `sent`, if the table has them.
    pub fn sentence(&self, sent: &Sentence) -> (r: Option<&TriggerVec>)
        ensures
            match r {
                Some(v) => self.table().contains_key(*sent) && self.table()[*sent] == v@,
                None => !self.table().contains_key(*sent),
            },
    {
        self.0.get(sent)
    }

    /// Number of sentences in the table.
    pub fn len(&self) -> (r: usize)
        ensures
            r == self.table().len(),
    {
        assert(self.table().dom() =~= self.0@.dom());
        self.0.len()
    }

    /// Checks the table against the corpus' known number of labelled sentences.
    pub fn check_size(&self) -> (r: Result<(), LoadError>)
        ensures
            self.table().len() == TRIGGER_SENTENCES ==> r is Ok,
            self.table().len() != TRIGGER_SENTENCES ==> r == Err::<(), LoadError>(
                LoadError::WrongTriggerCount(self.table().len() as usize),
            ),
    {
        let n = self.len();
        if n == TRIGGER_SENTENCES {
            Ok(())
        } else {
            Err(LoadError::WrongTriggerCount(n))
        }
    }

    /// Adds the labels of `sent`, replacing any earlier ones.
    pub fn insert(&mut self, sent: Sentence, v: TriggerVec)
        ensures
            final(self).table() == old(self).table().insert(sent, v@),
    {
        self.0.insert(sent, v);
        assert(self.table() =~= old(self).table().insert(sent, v@));
    }

    /// Adds the rows of a trigger file in order, each a sentence and its
    /// trigger string; stops at the first malformed string.
    pub fn insert_rows(&mut self, rows: &Vec<(Sentence, String)>) -> (r: Result<(), LoadError>)
        ensures
            ({
                let load = trigger_rows_load(old(self).table(), rows@.map_values(|x: (Sentence, String)| (x.0, x.1@)));
                final(self).table() == load.0 && r == trigger_load_result(load.1)
            }),
    {
        let ghost rs = rows@.map_values(|x: (Sentence, String)| (x.0, x.1@));
        let mut i: usize = 0;
        assert(rs.skip(0) =~= rs);
        while i < rows.len()
            invariant
                i <= rows@.len(),
                rs == rows@.map_values(|x: (Sentence, String)| (x.0, x.1@)),
                trigger_rows_load(old(self).table(), rs) == trigger_rows_load(self.table(), rs.skip(i as int)),
            decreases rows@.len() - i,
        {
            let row = &rows[i];
            assert(rs.skip(i as int)[0] == (row.0, row.1@));
            assert(rs.skip(i as int).drop_first() =~= rs.skip(i + 1));
            match parse_trigger_string(row.1.as_str()) {
                Some(v) => {
                    self.insert(row.0, v);
                },
                None => {
                    return Err(LoadError::BadTriggerString(row.0));
                },
            }
            i = i + 1;
        }
        assert(rs.skip(i as int) =~= Seq::<(Sentence, Seq<char>)>::empty());
        Ok(())
    }

    /// The table of a trigger file's rows, or the first malformed row.
    pub fn from_rows(rows: &Vec<(Sentence, String)>) -> (r: Result<TriggerMap, LoadError>)
        ensures
            ({
                let load = trigger_rows_load(Map::empty(), rows@.map_values(|x: (Sentence, String)| (x.0, x.1@)));
                match load.1 {
                    None => r matches Ok(m) && m.table() == load.0,
                    Some(s) => r matches Err(e) && e == LoadError::BadTriggerString(s),
                }
            }),
    {
        let mut m = TriggerMap::new();
        match m.insert_rows(rows) {
            Ok(()) => Ok(m),
            Err(e) => Err(e),
        }
    }
}

} // verus!
