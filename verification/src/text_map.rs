//! A small map keyed by text.
//!
//! The entries stand in the order in which their keys were first put in. No key
//! occurs twice.
use vstd::prelude::*;

use crate::text::same_text;

verus! {

/// The first position of `key` at or after `from`, or the number of entries.
pub open spec fn key_position<V>(entries: Seq<(String, V)>, key: Seq<char>, from: int) -> int
    decreases entries.len() - from,
{
    if from < 0 || from >= entries.len() {
        entries.len() as int
    } else if entries[from].0@ == key {
        from
    } else {
        key_position(entries, key, from + 1)
    }
}

proof fn lemma_key_position<V>(entries: Seq<(String, V)>, key: Seq<char>, from: int)
    requires
        0 <= from <= entries.len(),
    ensures
        from <= key_position(entries, key, from) <= entries.len(),
        key_position(entries, key, from) < entries.len() ==> entries[key_position(entries, key, from)].0@
            == key,
        forall|i: int|
            from <= i < key_position(entries, key, from) ==> (#[trigger] entries[i]).0@ != key,
    decreases entries.len() - from,
{
    if from < entries.len() && entries[from].0@ != key {
        lemma_key_position(entries, key, from + 1);
    }
}

proof fn lemma_key_position_is<V>(entries: Seq<(String, V)>, key: Seq<char>, from: int, at: int)
    requires
        0 <= from <= at <= entries.len(),
        forall|i: int| from <= i < at ==> (#[trigger] entries[i]).0@ != key,
        at < entries.len() ==> entries[at].0@ == key,
    ensures
        key_position(entries, key, from) == at,
    decreases at - from,
{
    if from < at {
        lemma_key_position_is(entries, key, from + 1, at);
    }
}

/// A map from text to values.
#[derive(Debug)]
pub struct TextMap<V> {
    entries: Vec<(String, V)>,
}

impl<V> TextMap<V> {
    #[verifier::type_invariant]
    pub closed spec fn keys_are_distinct(self) -> bool {
        forall|i: int, j: int|
            0 <= i < j < self.entries@.len() ==> (#[trigger] self.entries@[i]).0@ != (
            #[trigger] self.entries@[j]).0@
    }

    /// The entries in order.
    pub closed spec fn items(self) -> Seq<(String, V)> {
        self.entries@
    }

    /// What the map holds.
    pub open spec fn view(self) -> Map<Seq<char>, V> {
        Map::new(
            |k: Seq<char>| key_position(self.items(), k, 0) < self.items().len(),
            |k: Seq<char>| self.items()[key_position(self.items(), k, 0)].1,
        )
    }

    pub fn new() -> (r: Self)
        ensures
            r@ == Map::<Seq<char>, V>::empty(),
            r.items().len() == 0,
    {
        let r = TextMap { entries: Vec::new() };
        assert(r@ =~= Map::<Seq<char>, V>::empty());
        r
    }

    pub fn len(&self) -> (r: usize)
        ensures
            r == self.items().len(),
    {
        self.entries.len()
    }

    /// The entry at `i`.
    pub fn entry(&self, i: usize) -> (r: &(String, V))
        requires
            i < self.items().len(),
        ensures
            *r == self.items()[i as int],
    {
        &self.entries[i]
    }

    fn position(&self, key: &str) -> (r: usize)
        ensures
            r == key_position(self.items(), key@, 0),
            r <= self.items().len(),
    {
        let mut i: usize = 0;
        while i < self.entries.len()
            invariant
                i <= self.entries@.len(),
                forall|j: int| 0 <= j < i ==> (#[trigger] self.entries@[j]).0@ != key@,
            decreases self.entries@.len() - i,
        {
            if same_text(self.entries[i].0.as_str(), key) {
                proof {
                    lemma_key_position_is(self.entries@, key@, 0, i as int);
                }
                return i;
            }
            i += 1;
        }
        proof {
            lemma_key_position_is(self.entries@, key@, 0, i as int);
        }
        i
    }

    pub fn get(&self, key: &str) -> (r: Option<&V>)
        ensures
            r is Some == self@.contains_key(key@),
            r is Some ==> *r->0 == self@[key@],
    {
        let i = self.position(key);
        if i < self.entries.len() {
            Some(&self.entries[i].1)
        } else {
            None
        }
    }

    /// Put `value` under `key`, in place of what was there.
    pub fn insert(&mut self, key: String, value: V)
        ensures
            final(self)@ == old(self)@.insert(key@, value),
    {
        proof {
            use_type_invariant(&*self);
        }
        let at = self.position(key.as_str());
        let ghost before = self.entries@;
        let mut entries: Vec<(String, V)> = Vec::new();
        std::mem::swap(&mut entries, &mut self.entries);
        proof {
            lemma_key_position(before, key@, 0);
        }
        if at < entries.len() {
            entries.set(at, (key, value));
        } else {
            entries.push((key, value));
        }
        self.entries = entries;
        proof {
            let after = self.entries@;
            assert forall|k: Seq<char>| #![trigger self@.contains_key(k)]
                self@.contains_key(k) == old(self)@.insert(key@, value).contains_key(k) && (
                self@.contains_key(k) ==> self@[k] == old(self)@.insert(key@, value)[k]) by {
                lemma_key_position(before, k, 0);
                if k == key@ {
                    lemma_key_position_is(after, k, 0, at as int);
                } else if key_position(before, k, 0) < before.len() {
                    lemma_key_position_is(after, k, 0, key_position(before, k, 0));
                } else {
                    lemma_key_position_is(after, k, 0, after.len() as int);
                }
            }
            assert(self@ =~= old(self)@.insert(key@, value));
        }
    }
}

impl<V> Default for TextMap<V> {
    fn default() -> (r: Self)
        ensures
            r@ == Map::<Seq<char>, V>::empty(),
            r.items().len() == 0,
    {
        Self::new()
    }
}

} // verus!
