//! The fields of one record, by name: a small map from texts to texts in
//! which the value given last for a name is the one that counts.

use crate::text::{chars_of, same_chars, slice, string_of};
use vstd::prelude::*;

verus! {

/// The fields of one record, by name.
pub struct FieldMap {
    entries: Vec<(Vec<char>, Vec<char>)>,
}

/// The map that a row of entries stands for: each entry puts its value under
/// its name, a later one in the place of an earlier one.
pub closed spec fn map_of(entries: Seq<(Vec<char>, Vec<char>)>) -> Map<Seq<char>, Seq<char>>
    decreases entries.len(),
{
    if entries.len() == 0 {
        Map::empty()
    } else {
        map_of(entries.drop_last()).insert(entries.last().0@, entries.last().1@)
    }
}

impl View for FieldMap {
    type V = Map<Seq<char>, Seq<char>>;

    closed spec fn view(&self) -> Map<Seq<char>, Seq<char>> {
        map_of(self.entries@)
    }
}

impl FieldMap {
    /// A map without fields.
    pub fn new() -> (fields: FieldMap)
        ensures
            fields@ == Map::<Seq<char>, Seq<char>>::empty(),
    {
        FieldMap { entries: Vec::new() }
    }

    /// Puts `value` under `name`, in the place of what stood there.
    pub fn insert(&mut self, name: &str, value: &str)
        ensures
            final(self)@ == old(self)@.insert(name@, value@),
    {
        let ghost before = self.entries@;
        self.entries.push((chars_of(name), chars_of(value)));
        assert(self.entries@.drop_last() == before);
    }

    /// Puts the characters `value` under the name `name`, in the place of
    /// what stood there.
    pub fn insert_chars(&mut self, name: Vec<char>, value: Vec<char>)
        ensures
            final(self)@ == old(self)@.insert(name@, value@),
    {
        let ghost before = self.entries@;
        self.entries.push((name, value));
        assert(self.entries@.drop_last() == before);
    }

    /// Whether a value stands under `name`.
    pub fn contains(&self, name: &str) -> (held: bool)
        ensures
            held == self@.dom().contains(name@),
    {
        let key = chars_of(name);
        let mut held = false;
        let mut i: usize = 0;
        assert(self.entries@.take(0) == Seq::<(Vec<char>, Vec<char>)>::empty());
        while i < self.entries.len()
            invariant
                i <= self.entries@.len(),
                key@ == name@,
                held == map_of(self.entries@.take(i as int)).dom().contains(name@),
            decreases self.entries.len() - i,
        {
            assert(self.entries@.take(i + 1).drop_last() == self.entries@.take(i as int));
            if same_chars(&self.entries[i].0, &key) {
                held = true;
            }
            i += 1;
        }
        assert(self.entries@.take(i as int) == self.entries@);
        held
    }

    /// Takes out what stands under `name`, and hands it back.
    pub fn remove(&mut self, name: &str) -> (value: Option<String>)
        ensures
            final(self)@ == old(self)@.remove(name@),
            match value {
                Some(v) => old(self)@.dom().contains(name@) && v@ == old(self)@[name@],
                None => !old(self)@.dom().contains(name@),
            },
    {
        let key = chars_of(name);
        let mut kept: Vec<(Vec<char>, Vec<char>)> = Vec::new();
        let mut found: Option<Vec<char>> = None;
        let mut i: usize = 0;
        assert(self.entries@.take(0) == Seq::<(Vec<char>, Vec<char>)>::empty());
        while i < self.entries.len()
            invariant
                i <= self.entries@.len(),
                key@ == name@,
                map_of(kept@) == map_of(self.entries@.take(i as int)).remove(name@),
                match found {
                    Some(v) => map_of(self.entries@.take(i as int)).dom().contains(name@) && v@
                        == map_of(self.entries@.take(i as int))[name@],
                    None => !map_of(self.entries@.take(i as int)).dom().contains(name@),
                },
            decreases self.entries.len() - i,
        {
            let ghost seen = map_of(self.entries@.take(i as int));
            assert(self.entries@.take(i + 1).drop_last() == self.entries@.take(i as int));
            let entry = &self.entries[i];
            let value = slice(&entry.1, 0, entry.1.len());
            assert(value@ == entry.1@);
            if same_chars(&entry.0, &key) {
                found = Some(value);
                assert(seen.insert(name@, value@).remove(name@) == seen.remove(name@));
            } else {
                let field = slice(&entry.0, 0, entry.0.len());
                assert(field@ == entry.0@);
                let ghost before = kept@;
                kept.push((field, value));
                assert(kept@.drop_last() == before);
                assert(seen.remove(name@).insert(field@, value@) == seen.insert(
                    field@,
                    value@,
                ).remove(name@));
            }
            i += 1;
        }
        assert(self.entries@.take(i as int) == self.entries@);
        self.entries = kept;
        match found {
            Some(v) => Some(string_of(&v)),
            None => None,
        }
    }
}

} // verus!
