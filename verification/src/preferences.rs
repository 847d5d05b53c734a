//! Preferences of this device: named values, read as flags or texts.

use vstd::prelude::*;

use crate::text::same;

verus! {

/// The value of a preference.
#[derive(Debug, PartialEq, Eq)]
pub enum PrefValue {
    Bool(bool),
    Text(String),
    /// A number, a list, an object or nothing: neither a flag nor a text.
    Other,
}

/// What a preference's value is read as.
pub enum PrefView {
    Bool(bool),
    Text(Seq<char>),
    Other,
}

impl View for PrefValue {
    type V = PrefView;

    open spec fn view(&self) -> PrefView {
        match self {
            PrefValue::Bool(b) => PrefView::Bool(*b),
            PrefValue::Text(s) => PrefView::Text(s@),
            PrefValue::Other => PrefView::Other,
        }
    }
}

/// The preferences by name. Where a name occurs more than once, its first value counts.
#[derive(Debug)]
pub struct Preferences {
    pub entries: Vec<(String, PrefValue)>,
}

pub open spec fn entry_of(entries: Seq<(String, PrefValue)>, key: Seq<char>) -> Option<PrefView>
    decreases entries.len(),
{
    if entries.len() == 0 {
        None
    } else if entries[0].0@ == key {
        Some(entries[0].1@)
    } else {
        entry_of(entries.drop_first(), key)
    }
}

impl Preferences {
    pub open spec fn value(&self, key: Seq<char>) -> Option<PrefView> {
        entry_of(self.entries@, key)
    }

    /// A preference as a flag, where it is one.
    pub open spec fn flag(&self, key: Seq<char>) -> Option<bool> {
        match self.value(key) {
            Some(PrefView::Bool(b)) => Some(b),
            _ => None,
        }
    }

    /// A preference as a flag; the given value where it is missing or no flag.
    pub open spec fn flag_or(&self, key: Seq<char>, default: bool) -> bool {
        match self.flag(key) {
            Some(b) => b,
            None => default,
        }
    }

    /// A preference as a text, where it is one.
    pub open spec fn text(&self, key: Seq<char>) -> Option<Seq<char>> {
        match self.value(key) {
            Some(PrefView::Text(s)) => Some(s),
            _ => None,
        }
    }

    pub fn new() -> (r: Preferences)
        ensures
            r.entries@.len() == 0,
    {
        Preferences { entries: Vec::new() }
    }

    /// The value of a preference.
    pub fn get(&self, key: &str) -> (r: Option<&PrefValue>)
        ensures
            (match r {
                Some(value) => Some(value@),
                None => None,
            }) == self.value(key@),
    {
        let mut i: usize = 0;
        assert(self.entries@.skip(0) =~= self.entries@);
        while i < self.entries.len()
            invariant
                i <= self.entries@.len(),
                entry_of(self.entries@, key@) == entry_of(self.entries@.skip(i as int), key@),
            decreases self.entries@.len() - i,
        {
            assert(self.entries@.skip(i as int)[0] == self.entries@[i as int]);
            assert(self.entries@.skip(i as int).drop_first() =~= self.entries@.skip(i + 1));
            if same(self.entries[i].0.as_str(), key) {
                return Some(&self.entries[i].1);
            }
            i += 1;
        }
        None
    }

    /// A preference as a flag; the given value where it is missing or no flag.
    pub fn preference_bool(&self, key: &str, default: bool) -> (r: bool)
        ensures
            r == self.flag_or(key@, default),
    {
        match self.get(key) {
            Some(PrefValue::Bool(b)) => *b,
            _ => default,
        }
    }

    /// A preference as a text, where it is one.
    pub fn preference_text(&self, key: &str) -> (r: Option<&str>)
        ensures
            (match r {
                Some(s) => Some(s@),
                None => None,
            }) == self.text(key@),
    {
        match self.get(key) {
            Some(PrefValue::Text(s)) => Some(s.as_str()),
            _ => None,
        }
    }
}

/// A setting is read from the first entry under its key, by its sort: a flag gives its flag, a text
/// its text, and an entry of another sort gives neither.
pub proof fn law_setting_is_read_by_its_sort(
    prefs: &Preferences,
    key: &str,
    default: bool,
    flag: bool,
    text: Option<&str>,
)
    requires
        call_ensures(Preferences::preference_bool, (prefs, key, default), flag),
        call_ensures(Preferences::preference_text, (prefs, key), text),
    ensures
        prefs.entries@.len() == 0 ==> flag == default && text is None,
        prefs.entries@.len() > 0 && prefs.entries@[0].0@ == key@ ==> match prefs.entries@[0].1 {
            PrefValue::Bool(b) => flag == b && text is None,
            PrefValue::Text(s) => flag == default && text is Some && text->0@ == s@,
            PrefValue::Other => flag == default && text is None,
        },
{
}

} // verus!
