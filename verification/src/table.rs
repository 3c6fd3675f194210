//! Texts that are found by a key.

use crate::text::{opt_view, text_eq, Text};
use vstd::prelude::*;

verus! {

/// Texts that are found by a key; the entry that came last counts.
#[derive(Debug)]
pub struct TextTable {
    pub entries: Vec<(String, String)>,
}

/// What the entries hold.
pub open spec fn table_of(entries: Seq<(String, String)>) -> Map<Text, Text>
    decreases entries.len(),
{
    if entries.len() == 0 {
        Map::empty()
    } else {
        table_of(entries.drop_last()).insert(entries.last().0@, entries.last().1@)
    }
}

impl View for TextTable {
    type V = Map<Text, Text>;

    open spec fn view(&self) -> Map<Text, Text> {
        table_of(self.entries@)
    }
}

/// The text under a key, if there is one.
pub open spec fn entry(m: Map<Text, Text>, key: Text) -> Option<Text> {
    if m.contains_key(key) {
        Some(m[key])
    } else {
        None
    }
}

/// The text under a key, or an empty one.
pub open spec fn entry_or_empty(m: Map<Text, Text>, key: Text) -> Text {
    if m.contains_key(key) {
        m[key]
    } else {
        Seq::empty()
    }
}

impl TextTable {
    pub fn new() -> (r: TextTable)
        ensures
            r@ == Map::<Text, Text>::empty(),
    {
        TextTable { entries: Vec::new() }
    }

    /// Sets the text under a key.
    pub fn insert(&mut self, key: &str, value: &str)
        ensures
            final(self)@ == old(self)@.insert(key@, value@),
    {
        let ghost was = self.entries@;
        self.entries.push((key.to_string(), value.to_string()));
        assert(self.entries@.drop_last() =~= was);
    }

    /// The text under a key, if there is one.
    pub fn get(&self, key: &str) -> (r: Option<String>)
        ensures
            opt_view(r) == entry(self@, key@),
    {
        let mut i: usize = self.entries.len();
        assert(self.entries@.take(i as int) =~= self.entries@);
        while i > 0
            invariant
                i <= self.entries@.len(),
                entry(table_of(self.entries@.take(i as int)), key@) == entry(self@, key@),
            decreases i,
        {
            assert(self.entries@.take(i as int).drop_last() =~= self.entries@.take(i - 1));
            if text_eq(&self.entries[i - 1].0, key) {
                return Some(self.entries[i - 1].1.clone());
            }
            i = i - 1;
        }
        None
    }

    /// The text under a key, or an empty one.
    pub fn get_or_empty(&self, key: &str) -> (r: String)
        ensures
            r@ == entry_or_empty(self@, key@),
    {
        match self.get(key) {
            Some(t) => t,
            None => String::new(),
        }
    }

    /// The text under a key, or another one.
    pub fn get_or(&self, key: &str, other: &str) -> (r: String)
        ensures
            r@ == (match entry(self@, key@) {
                Some(t) => t,
                None => other@,
            }),
    {
        match self.get(key) {
            Some(t) => t,
            None => other.to_string(),
        }
    }
}

} // verus!
