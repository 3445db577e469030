//! A small map keyed by text that keeps its entries in the order in which
//! their keys first arrived. The stores of both sides are built on it.

use vstd::prelude::*;
use vstd::string::*;

use crate::text::same_text;

verus! {

/// A map from text to `V`. Its view is a `Map` over the keys' characters;
/// `key_seq` and `value_seq` give the entries in order of first insertion.
pub struct TextMap<V> {
    entries: Vec<(String, V)>,
}

/// The value under `key`, if the map holds one.
pub open spec fn row_of<V>(rows: Map<Seq<char>, V>, key: Seq<char>) -> Option<V> {
    if rows.contains_key(key) {
        Some(rows[key])
    } else {
        None
    }
}

/// The keys of `entries`, as characters, in order.
pub open spec fn entry_keys<V>(entries: Seq<(String, V)>) -> Seq<Seq<char>> {
    entries.map_values(|e: (String, V)| e.0@)
}

/// The values of `entries`, in order.
pub open spec fn entry_values<V>(entries: Seq<(String, V)>) -> Seq<V> {
    entries.map_values(|e: (String, V)| e.1)
}

impl<V> View for TextMap<V> {
    type V = Map<Seq<char>, V>;

    open spec fn view(&self) -> Map<Seq<char>, V> {
        Map::new(
            |k: Seq<char>| self.key_seq().contains(k),
            |k: Seq<char>| self.value_seq()[self.key_seq().index_of(k)],
        )
    }
}

impl<V> TextMap<V> {
    #[verifier::type_invariant]
    spec fn keys_distinct(self) -> bool {
        entry_keys(self.entries@).no_duplicates()
    }

    /// The keys in order of first insertion.
    pub closed spec fn key_seq(self) -> Seq<Seq<char>> {
        entry_keys(self.entries@)
    }

    /// The values, each at the place of its key in `key_seq`.
    pub closed spec fn value_seq(self) -> Seq<V> {
        entry_values(self.entries@)
    }

    /// What holds of every map: no key occurs twice, each key has one value,
    /// and the view maps the key at each place to the value at that place.
    pub open spec fn consistent(self) -> bool {
        &&& self.key_seq().len() == self.value_seq().len()
        &&& self.key_seq().no_duplicates()
        &&& self@.dom().finite()
        &&& self@.dom().len() == self.key_seq().len()
        &&& forall|k: Seq<char>| self@.contains_key(k) <==> self.key_seq().contains(k)
        &&& forall|i: int|
            0 <= i < self.key_seq().len() ==> self@[#[trigger] self.key_seq()[i]]
                == self.value_seq()[i]
    }

    proof fn lemma_consistent(self)
        requires
            self.keys_distinct(),
        ensures
            self.consistent(),
    {
        let keys = self.key_seq();
        assert forall|i: int| 0 <= i < keys.len() implies self@[#[trigger] keys[i]]
            == self.value_seq()[i] by {
            assert(keys.contains(keys[i]));
            let j = keys.index_of(keys[i]);
            assert(keys[j] == keys[i]);
        }
        keys.unique_seq_to_set();
        assert(self@.dom() =~= keys.to_set());
    }

    /// An empty map.
    pub fn new() -> (m: Self)
        ensures
            m@ == Map::<Seq<char>, V>::empty(),
            m.key_seq() == Seq::<Seq<char>>::empty(),
            m.value_seq() == Seq::<V>::empty(),
    {
        let m = TextMap { entries: Vec::new() };
        assert(m.key_seq() =~= Seq::<Seq<char>>::empty());
        assert(m.value_seq() =~= Seq::<V>::empty());
        assert(m@ =~= Map::<Seq<char>, V>::empty());
        m
    }

    /// The number of entries.
    pub fn len(&self) -> (n: usize)
        ensures
            n == self.key_seq().len(),
            self.consistent(),
    {
        proof {
            use_type_invariant(self);
            self.lemma_consistent();
        }
        self.entries.len()
    }

    /// The key at place `i`.
    pub fn key_at(&self, i: usize) -> (key: &String)
        requires
            i < self.key_seq().len(),
        ensures
            key@ == self.key_seq()[i as int],
    {
        &self.entries[i].0
    }

    /// The value at place `i`.
    pub fn value_at(&self, i: usize) -> (value: &V)
        requires
            i < self.key_seq().len(),
        ensures
            *value == self.value_seq()[i as int],
            self.consistent(),
    {
        proof {
            use_type_invariant(self);
            self.lemma_consistent();
        }
        &self.entries[i].1
    }

    /// The place of `key`, where the map holds it.
    pub fn position(&self, key: &str) -> (place: Option<usize>)
        ensures
            self.consistent(),
            match place {
                Some(i) => i < self.key_seq().len() && self.key_seq()[i as int] == key@,
                None => !self@.contains_key(key@),
            },
    {
        proof {
            use_type_invariant(self);
            self.lemma_consistent();
        }
        let mut i: usize = 0;
        while i < self.entries.len()
            invariant
                i <= self.entries.len(),
                self.consistent(),
                forall|j: int| 0 <= j < i ==> self.key_seq()[j] != key@,
            decreases self.entries.len() - i,
        {
            if same_text(self.entries[i].0.as_str(), key) {
                return Some(i);
            }
            i += 1;
        }
        None
    }

    /// Whether the map holds `key`.
    pub fn contains_key(&self, key: &str) -> (held: bool)
        ensures
            held == self@.contains_key(key@),
    {
        let place = self.position(key);
        proof {
            if let Some(i) = place {
                assert(self.key_seq().contains(self.key_seq()[i as int]));
            }
        }
        place.is_some()
    }

    /// The value under `key`, where the map holds it.
    pub fn get(&self, key: &str) -> (value: Option<&V>)
        ensures
            match value {
                Some(v) => self@.contains_key(key@) && *v == self@[key@],
                None => !self@.contains_key(key@),
            },
    {
        match self.position(key) {
            Some(i) => {
                assert(self.key_seq().contains(self.key_seq()[i as int]));
                Some(&self.entries[i].1)
            },
            None => None,
        }
    }

    /// Puts `value` under `key`. A key that the map already holds keeps its
    /// place; a new key goes last.
    pub fn insert(&mut self, key: String, value: V)
        ensures
            final(self)@ == old(self)@.insert(key@, value),
            final(self).consistent(),
            old(self)@.contains_key(key@) ==> final(self).key_seq() == old(self).key_seq(),
            !old(self)@.contains_key(key@) ==> final(self).key_seq() == old(self).key_seq().push(
                key@,
            ) && final(self).value_seq() == old(self).value_seq().push(value),
    {
        let place = self.position(key.as_str());
        let ghost before = *self;
        let mut entries: Vec<(String, V)> = Vec::new();
        std::mem::swap(&mut entries, &mut self.entries);
        match place {
            Some(i) => {
                entries.set(i, (key, value));
                assert(entry_keys(entries@) =~= before.key_seq());
                assert(entry_values(entries@) =~= before.value_seq().update(i as int, value));
            },
            None => {
                entries.push((key, value));
                assert(entry_keys(entries@) =~= before.key_seq().push(key@));
                assert(entry_values(entries@) =~= before.value_seq().push(value));
                assert(!before.key_seq().contains(key@));
            },
        }
        self.entries = entries;
        proof {
            self.lemma_consistent();
            let after = *self;
            assert forall|k: Seq<char>| after@.contains_key(k) <==> before@.insert(
                key@,
                value,
            ).contains_key(k) by {
                if after.key_seq().contains(k) {
                    let j = after.key_seq().index_of(k);
                    if j < before.key_seq().len() {
                        assert(before.key_seq().contains(before.key_seq()[j]) || k == key@);
                    }
                }
                if before.key_seq().contains(k) {
                    let j = before.key_seq().index_of(k);
                    assert(after.key_seq()[j] == k);
                }
                if k == key@ {
                    match place {
                        Some(i) => {
                            assert(after.key_seq()[i as int] == k);
                        },
                        None => {
                            assert(after.key_seq()[before.key_seq().len() as int] == k);
                        },
                    }
                }
            }
            assert forall|k: Seq<char>| after@.contains_key(k) implies after@[k] == before@.insert(
                key@,
                value,
            )[k] by {
                let j = after.key_seq().index_of(k);
                assert(after.key_seq()[j] == k);
                if k != key@ {
                    assert(before.key_seq()[j] == k);
                    assert(before.key_seq().contains(before.key_seq()[j]));
                    assert(before@[before.key_seq()[j]] == before.value_seq()[j]);
                }
            }
            assert(after@ =~= before@.insert(key@, value));
        }
    }
}

} // verus!
