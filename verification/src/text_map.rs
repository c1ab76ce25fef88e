//! An insertion-ordered map from text to text, in which no key occurs twice.

use vstd::prelude::*;
use vstd::string::*;

verus! {

/// Whether some entry has the given key.
pub open spec fn has_key(entries: Seq<(Seq<char>, Seq<char>)>, key: Seq<char>) -> bool {
    exists|i: int| 0 <= i < entries.len() && (#[trigger] entries[i]).0 == key
}

/// Whether no two entries share a key.
pub open spec fn distinct_keys(entries: Seq<(Seq<char>, Seq<char>)>) -> bool {
    forall|i: int, j: int|
        0 <= i < j < entries.len() ==> (#[trigger] entries[i]).0 != (#[trigger] entries[j]).0
}

/// Keys with their values, in the order in which the keys came in. A key that
/// is there keeps its place and its value: the first value wins.
#[derive(Debug)]
pub struct TextMap {
    entries: Vec<(String, String)>,
}

impl TextMap {
    /// The entries as texts, in insertion order.
    pub closed spec fn entries(&self) -> Seq<(Seq<char>, Seq<char>)> {
        Seq::new(self.entries@.len(), |i: int| (self.entries@[i].0@, self.entries@[i].1@))
    }

    /// The map's invariant: no key occurs twice.
    pub open spec fn wf(&self) -> bool {
        distinct_keys(self.entries())
    }

    pub fn new() -> (m: Self)
        ensures
            m.entries() == Seq::<(Seq<char>, Seq<char>)>::empty(),
            m.wf(),
    {
        let m = Self { entries: Vec::new() };
        assert(m.entries() == Seq::<(Seq<char>, Seq<char>)>::empty());
        m
    }

    pub fn len(&self) -> (n: usize)
        ensures
            n == self.entries().len(),
    {
        self.entries.len()
    }

    /// The key of the entry at `index`.
    pub fn key_at(&self, index: usize) -> (key: &String)
        requires
            index < self.entries().len(),
        ensures
            key@ == self.entries()[index as int].0,
    {
        &self.entries[index].0
    }

    /// The value of the entry at `index`.
    pub fn value_at(&self, index: usize) -> (value: &String)
        requires
            index < self.entries().len(),
        ensures
            value@ == self.entries()[index as int].1,
    {
        &self.entries[index].1
    }

    /// The value stored under `key`, if the map has the key.
    pub fn get(&self, key: &String) -> (r: Option<&String>)
        ensures
            r is Some <==> has_key(self.entries(), key@),
            r matches Some(value) ==> exists|i: int|
                0 <= i < self.entries().len() && #[trigger] self.entries()[i] == (key@, value@)
                    && forall|j: int| 0 <= j < i ==> (#[trigger] self.entries()[j]).0 != key@,
    {
        let mut i: usize = 0;
        while i < self.entries.len()
            invariant
                i <= self.entries.len(),
                forall|j: int| 0 <= j < i ==> (#[trigger] self.entries()[j]).0 != key@,
            decreases self.entries.len() - i,
        {
            if self.entries[i].0 == *key {
                assert(self.entries()[i as int] == (key@, self.entries[i as int].1@));
                return Some(&self.entries[i].1);
            }
            i += 1;
        }
        None
    }

    pub fn contains_key(&self, key: &String) -> (r: bool)
        ensures
            r == has_key(self.entries(), key@),
    {
        self.get(key).is_some()
    }

    /// Stores `value` under `key` unless the map has the key already. Returns
    /// whether it stored it.
    pub fn insert_if_absent(&mut self, key: String, value: String) -> (stored: bool)
        requires
            old(self).wf(),
        ensures
            final(self).wf(),
            stored == !has_key(old(self).entries(), key@),
            stored ==> final(self).entries() == old(self).entries().push((key@, value@)),
            !stored ==> final(self).entries() == old(self).entries(),
    {
        if self.contains_key(&key) {
            false
        } else {
            let ghost before = self.entries();
            self.entries.push((key, value));
            proof {
                assert(self.entries() == before.push((key@, value@)));
                assert forall|i: int, j: int| 0 <= i < j < self.entries().len() implies (
                #[trigger] self.entries()[i]).0 != (#[trigger] self.entries()[j]).0 by {
                    if j < before.len() {
                        assert(before[i].0 != before[j].0);
                    } else {
                        assert(before[i].0 != key@);
                    }
                }
            }
            true
        }
    }
}

} // verus!
