//! Maps with text keys.

use vstd::prelude::*;
use vstd::string::*;

verus! {

use crate::assoc::{
    distinct_keys, dropped, has_key, key_index, lemma_dropped, lemma_key_index, lemma_stored,
    stored, value_of,
};

/// An entry, with its key by its characters.
pub open spec fn entry_view<V>() -> spec_fn((String, V)) -> (Seq<char>, V) {
    |entry: (String, V)| (entry.0@, entry.1)
}

/// Entries, with their keys by their characters.
pub open spec fn entries_view<V>(entries: Seq<(String, V)>) -> Seq<(Seq<char>, V)> {
    entries.map_values(entry_view())
}

/// A map from texts to values that keeps its entries in insertion order.
#[derive(Debug)]
pub struct StringMap<V> {
    entries: Vec<(String, V)>,
}

impl<V> View for StringMap<V> {
    type V = Seq<(Seq<char>, V)>;

    closed spec fn view(&self) -> Seq<(Seq<char>, V)> {
        entries_view(self.entries@)
    }
}

impl<V> StringMap<V> {
    #[verifier::type_invariant]
    closed spec fn inv(self) -> bool {
        distinct_keys(self@)
    }

    pub fn new() -> (map: StringMap<V>)
        ensures
            map@ == Seq::<(Seq<char>, V)>::empty(),
            distinct_keys(map@),
    {
        let entries: Vec<(String, V)> = Vec::new();
        assert(entries_view(entries@) =~= Seq::<(Seq<char>, V)>::empty());
        StringMap { entries }
    }

    pub fn len(&self) -> (len: usize)
        ensures
            len == self@.len(),
            distinct_keys(self@),
    {
        proof {
            use_type_invariant(self);
        }
        self.entries.len()
    }

    fn find(&self, key: &str) -> (at: Option<usize>)
        ensures
            at matches Some(i) ==> i < self@.len() && self@[i as int].0 == key@ && i == key_index(
                self@,
                key@,
            ) && has_key(self@, key@),
            at is None ==> !has_key(self@, key@),
            distinct_keys(self@),
    {
        proof {
            use_type_invariant(self);
        }
        let wanted = key.to_owned();
        for i in 0..self.entries.len()
            invariant
                wanted@ == key@,
                distinct_keys(self@),
                forall|j: int| 0 <= j < i ==> (#[trigger] self@[j]).0 != key@,
        {
            assert(self@[i as int].0 == self.entries@[i as int].0@);
            if self.entries[i].0 == wanted {
                proof {
                    lemma_key_index(self@, i as int);
                }
                return Some(i);
            }
        }
        None
    }

    pub fn contains_key(&self, key: &str) -> (found: bool)
        ensures
            found == has_key(self@, key@),
            distinct_keys(self@),
    {
        self.find(key).is_some()
    }

    /// The value under the given key.
    pub fn get(&self, key: &str) -> (value: Option<&V>)
        ensures
            value is Some <==> has_key(self@, key@),
            value matches Some(v) ==> value_of(self@, key@) == Some(*v),
            distinct_keys(self@),
    {
        match self.find(key) {
            Some(i) => {
                assert(self@[i as int].1 == self.entries@[i as int].1);
                Some(&self.entries[i].1)
            },
            None => None,
        }
    }

    /// The entry at the given position.
    pub fn entry(&self, index: usize) -> (entry: (&String, &V))
        requires
            index < self@.len(),
        ensures
            (entry.0@, *entry.1) == self@[index as int],
    {
        (&self.entries[index].0, &self.entries[index].1)
    }

    /// Stores a value under a key, in the place of the former value or last.
    pub fn insert(&mut self, key: String, value: V)
        ensures
            final(self)@ == stored(old(self)@, key@, value),
            distinct_keys(old(self)@),
            distinct_keys(final(self)@),
    {
        proof {
            use_type_invariant(&*self);
            lemma_stored(self@, key@, value);
        }
        let at = self.find(key.as_str());
        let mut entries: Vec<(String, V)> = Vec::new();
        assert(entries_view(entries@) =~= Seq::<(Seq<char>, V)>::empty());
        std::mem::swap(&mut entries, &mut self.entries);
        let ghost before = entries@;
        match at {
            Some(i) => {
                entries.set(i, (key, value));
                assert(entries_view(entries@) =~= entries_view(before).update(
                    i as int,
                    (key@, value),
                ));
            },
            None => {
                entries.push((key, value));
                assert(entries_view(entries@) =~= entries_view(before).push((key@, value)));
            },
        }
        self.entries = entries;
    }

    /// Removes the entry with the given key, where there is one.
    pub fn remove(&mut self, key: &str)
        ensures
            final(self)@ == dropped(old(self)@, key@),
            distinct_keys(old(self)@),
            distinct_keys(final(self)@),
    {
        proof {
            use_type_invariant(&*self);
            lemma_dropped(self@, key@);
        }
        let at = self.find(key);
        let mut entries: Vec<(String, V)> = Vec::new();
        assert(entries_view(entries@) =~= Seq::<(Seq<char>, V)>::empty());
        std::mem::swap(&mut entries, &mut self.entries);
        let ghost before = entries@;
        match at {
            Some(i) => {
                entries.remove(i);
                assert(entries_view(entries@) =~= entries_view(before).remove(i as int));
            },
            None => {},
        }
        self.entries = entries;
    }
}

/// Whether two texts have the same characters.
pub fn str_eq(left: &str, right: &str) -> (equal: bool)
    ensures
        equal == (left@ == right@),
{
    left.to_owned() == right.to_owned()
}

} // verus!
