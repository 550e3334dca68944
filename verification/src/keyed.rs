//! A map from texts to values, kept in ascending order of its keys.

use crate::order::{
    before, before_is_strict_and_total, before_is_transitive, is_before, strictly_sorted,
};
use crate::text::same;
use vstd::prelude::*;

verus! {

/// A finite map with text keys that can be walked in ascending key order.
pub struct Keyed<V> {
    entries: Vec<(String, V)>,
}

spec fn entry_keys<V>(entries: Seq<(String, V)>) -> Seq<Seq<char>> {
    entries.map_values(|e: (String, V)| e.0@)
}

impl<V: View> View for Keyed<V> {
    type V = Map<Seq<char>, V::V>;

    closed spec fn view(&self) -> Map<Seq<char>, V::V> {
        Map::new(
            |k: Seq<char>| entry_keys(self.entries@).contains(k),
            |k: Seq<char>| self.entries@[entry_keys(self.entries@).index_of(k)].1@,
        )
    }
}

impl<V> Keyed<V> {
    #[verifier::type_invariant]
    spec fn ordered(self) -> bool {
        strictly_sorted(entry_keys(self.entries@))
    }
}

impl<V: View> Keyed<V> {
    /// The keys in ascending order.
    pub closed spec fn keys(self) -> Seq<Seq<char>> {
        entry_keys(self.entries@)
    }

    proof fn lemma_entry(self, i: int)
        requires
            self.ordered(),
            0 <= i < self.entries@.len(),
        ensures
            self@.contains_key(self.keys()[i]),
            self@[self.keys()[i]] == self.entries@[i].1@,
            self.keys().index_of(self.keys()[i]) == i,
    {
        let keys = self.keys();
        assert(keys.contains(keys[i]));
        let j = keys.index_of(keys[i]);
        assert(0 <= j < keys.len() && keys[j] == keys[i]);
        before_is_strict_and_total(keys[i], keys[i]);
        if j < i {
            assert(before(keys[j], keys[i]));
        } else if i < j {
            assert(before(keys[i], keys[j]));
        }
    }

    proof fn lemma_keys(self)
        requires
            self.ordered(),
        ensures
            strictly_sorted(self.keys()),
            self.keys().no_duplicates(),
            self.keys().to_set() == self@.dom(),
            self@.dom().finite(),
            self@.dom().len() == self.keys().len(),
    {
        let keys = self.keys();
        assert forall|i: int, j: int| 0 <= i < j < keys.len() implies keys[i] != keys[j] by {
            assert(before(keys[i], keys[j]));
            before_is_strict_and_total(keys[i], keys[j]);
        }
        keys.unique_seq_to_set();
        assert(keys.to_set() =~= self@.dom());
        vstd::seq_lib::seq_to_set_is_finite(keys);
    }

    /// The empty map.
    pub fn new() -> (map: Self)
        ensures
            map@ == Map::<Seq<char>, V::V>::empty(),
            map.keys() == Seq::<Seq<char>>::empty(),
    {
        let map = Keyed { entries: Vec::new() };
        proof {
            assert(map.keys() =~= Seq::empty());
            assert(map@ =~= Map::empty());
        }
        map
    }

    /// The number of keys.
    pub fn len(&self) -> (n: usize)
        ensures
            n == self.keys().len(),
            n == self@.dom().len(),
            self@.dom().finite(),
            self.keys().to_set() == self@.dom(),
            self.keys().no_duplicates(),
            strictly_sorted(self.keys()),
    {
        proof {
            use_type_invariant(self);
            self.lemma_keys();
        }
        self.entries.len()
    }

    /// The key at position `i` of the ascending order.
    pub fn key_at(&self, i: usize) -> (key: &String)
        requires
            i < self.keys().len(),
        ensures
            key@ == self.keys()[i as int],
            self@.contains_key(key@),
    {
        proof {
            use_type_invariant(self);
            self.lemma_entry(i as int);
        }
        &self.entries[i].0
    }

    /// The value of the key at position `i` of the ascending order.
    pub fn value_at(&self, i: usize) -> (value: &V)
        requires
            i < self.keys().len(),
        ensures
            self@.contains_key(self.keys()[i as int]),
            value@ == self@[self.keys()[i as int]],
    {
        proof {
            use_type_invariant(self);
            self.lemma_entry(i as int);
        }
        &self.entries[i].1
    }

    fn position(&self, key: &str) -> (at: usize)
        ensures
            at <= self.entries@.len(),
            forall|i: int| 0 <= i < at ==> before(#[trigger] self.keys()[i], key@),
            at < self.entries@.len() ==> !before(self.keys()[at as int], key@),
    {
        proof {
            use_type_invariant(self);
        }
        let mut lo: usize = 0;
        let mut hi: usize = self.entries.len();
        while lo < hi
            invariant
                self.ordered(),
                lo <= hi <= self.entries@.len(),
                forall|i: int| 0 <= i < lo ==> before(#[trigger] self.keys()[i], key@),
                hi < self.entries@.len() ==> !before(self.keys()[hi as int], key@),
            decreases hi - lo,
        {
            let mid: usize = lo + (hi - lo) / 2;
            if is_before(self.entries[mid].0.as_str(), key) {
                proof {
                    assert(before(self.keys()[mid as int], key@));
                    assert forall|i: int| 0 <= i < mid + 1 implies before(
                        #[trigger] self.keys()[i],
                        key@,
                    ) by {
                        if i < mid {
                            assert(before(self.keys()[i], self.keys()[mid as int]));
                            before_is_transitive(self.keys()[i], self.keys()[mid as int], key@);
                        }
                    }
                }
                lo = mid + 1;
            } else {
                hi = mid;
            }
        }
        lo
    }

    proof fn lemma_position(self, key: Seq<char>, at: int)
        requires
            self.ordered(),
            0 <= at <= self.entries@.len(),
            forall|i: int| 0 <= i < at ==> before(#[trigger] self.keys()[i], key),
            at < self.entries@.len() ==> !before(self.keys()[at], key),
        ensures
            self@.contains_key(key) <==> (at < self.entries@.len() && self.keys()[at] == key),
            forall|i: int|
                at <= i < self.entries@.len() && !self@.contains_key(key) ==> before(
                    key,
                    #[trigger] self.keys()[i],
                ),
    {
        let keys = self.keys();
        if at < keys.len() {
            before_is_strict_and_total(keys[at], key);
        }
        if keys.contains(key) {
            let i = keys.index_of(key);
            before_is_strict_and_total(key, key);
            assert(keys[i] == key);
            if i > at {
                assert(before(keys[at], keys[i]));
            }
        }
        assert forall|i: int| at <= i < keys.len() && !self@.contains_key(key) implies before(
            key,
            #[trigger] keys[i],
        ) by {
            if keys[at] == key {
                assert(keys.contains(key));
            }
            if i > at {
                assert(before(keys[at], keys[i]));
                before_is_transitive(key, keys[at], keys[i]);
            }
        }
    }

    /// The value of `key`, if it has one.
    pub fn get(&self, key: &str) -> (value: Option<&V>)
        ensures
            match value {
                Some(v) => self@.contains_key(key@) && v@ == self@[key@],
                None => !self@.contains_key(key@),
            },
    {
        proof {
            use_type_invariant(self);
        }
        let at = self.position(key);
        proof {
            self.lemma_position(key@, at as int);
        }
        if at < self.entries.len() && same(self.entries[at].0.as_str(), key) {
            proof {
                self.lemma_entry(at as int);
            }
            Some(&self.entries[at].1)
        } else {
            None
        }
    }

    /// Whether `key` has a value.
    pub fn contains_key(&self, key: &str) -> (found: bool)
        ensures
            found == self@.contains_key(key@),
    {
        match self.get(key) {
            Some(_) => true,
            None => false,
        }
    }

    /// Sets the value of `key`.
    pub fn insert(&mut self, key: String, value: V)
        ensures
            final(self)@ == old(self)@.insert(key@, value@),
    {
        proof {
            use_type_invariant(&*self);
        }
        let at = self.position(key.as_str());
        proof {
            self.lemma_position(key@, at as int);
        }
        let ghost before_map = *self;
        let ghost text = key@;
        let ghost content = value@;
        let found = at < self.entries.len() && same(self.entries[at].0.as_str(), key.as_str());
        let mut entries: Vec<(String, V)> = Vec::new();
        std::mem::swap(&mut self.entries, &mut entries);
        if found {
            let _ = entries.remove(at);
        }
        entries.insert(at, (key, value));
        proof {
            let after = Keyed { entries };
            let keys = before_map.keys();
            let new_keys = entry_keys(entries@);
            if found {
                assert(new_keys =~= keys);
            } else {
                assert(new_keys =~= keys.insert(at as int, text));
                assert forall|p: int, q: int| 0 <= p < q < new_keys.len() implies before(
                    #[trigger] new_keys[p],
                    #[trigger] new_keys[q],
                ) by {
                    let a = if p < at { p } else { p - 1 };
                    let b = if q < at { q } else { q - 1 };
                    if p == at {
                        assert(before(text, keys[b]));
                    } else if q == at {
                        assert(before(keys[a], text));
                    } else {
                        assert(before(keys[a], keys[b]));
                    }
                }
            }
            assert(after.ordered());
            lemma_inserted(before_map, after, text, content, at as int, found);
        }
        self.entries = entries;
    }

    /// Takes the value of `key` out of the map.
    pub fn remove(&mut self, key: &str) -> (value: Option<V>)
        ensures
            final(self)@ == old(self)@.remove(key@),
            match value {
                Some(v) => old(self)@.contains_key(key@) && v@ == old(self)@[key@],
                None => !old(self)@.contains_key(key@),
            },
    {
        proof {
            use_type_invariant(&*self);
        }
        let at = self.position(key);
        proof {
            self.lemma_position(key@, at as int);
        }
        if !(at < self.entries.len() && same(self.entries[at].0.as_str(), key)) {
            assert(self@.remove(key@) =~= self@);
            return None;
        }
        let ghost before_map = *self;
        let mut entries: Vec<(String, V)> = Vec::new();
        std::mem::swap(&mut self.entries, &mut entries);
        let entry = entries.remove(at);
        proof {
            before_map.lemma_entry(at as int);
            let after = Keyed { entries };
            let keys = before_map.keys();
            let new_keys = entry_keys(entries@);
            assert(new_keys =~= keys.remove(at as int));
            assert forall|p: int, q: int| 0 <= p < q < new_keys.len() implies before(
                #[trigger] new_keys[p],
                #[trigger] new_keys[q],
            ) by {
                let a = if p < at { p } else { p + 1 };
                let b = if q < at { q } else { q + 1 };
                assert(before(keys[a], keys[b]));
            }
            assert(after.ordered());
            lemma_removed(before_map, after, key@, at as int);
        }
        self.entries = entries;
        Some(entry.1)
    }
}

proof fn lemma_inserted<V: View>(
    old_map: Keyed<V>,
    new_map: Keyed<V>,
    key: Seq<char>,
    value: V::V,
    at: int,
    found: bool,
)
    requires
        old_map.ordered(),
        new_map.ordered(),
        0 <= at <= old_map.entries@.len(),
        found <==> at < old_map.entries@.len() && old_map.keys()[at] == key,
        found ==> new_map.entries@.len() == old_map.entries@.len(),
        !found ==> new_map.entries@.len() == old_map.entries@.len() + 1,
        new_map.keys()[at] == key,
        new_map.entries@[at].1@ == value,
        forall|i: int| 0 <= i < at ==> #[trigger] new_map.entries@[i] == old_map.entries@[i],
        forall|i: int|
            at < i < new_map.entries@.len() ==> #[trigger] new_map.entries@[i]
                == old_map.entries@[if found { i } else { i - 1 }],
    ensures
        new_map@ == old_map@.insert(key, value),
{
    let keys = old_map.keys();
    let new_keys = new_map.keys();
    assert forall|k: Seq<char>| new_map@.contains_key(k) <==> old_map@.insert(
        key,
        value,
    ).contains_key(k) by {
        if new_keys.contains(k) && k != key {
            let i = new_keys.index_of(k);
            let j = if i < at || found { i } else { i - 1 };
            assert(keys[j] == k);
        }
        if keys.contains(k) {
            let i = keys.index_of(k);
            let j = if i < at || found { i } else { i + 1 };
            assert(i != at || found ==> new_keys[j] == k);
            assert(new_map.entries@[j] == new_map.entries@[j]);
        }
        assert(new_keys.contains(key));
    }
    assert forall|k: Seq<char>| new_map@.contains_key(k) implies new_map@[k] == old_map@.insert(
        key,
        value,
    )[k] by {
        let i = new_keys.index_of(k);
        new_map.lemma_entry(i);
        new_map.lemma_entry(at);
        if k != key {
            let j = if i < at || found { i } else { i - 1 };
            old_map.lemma_entry(j);
        }
    }
    assert(new_map@ =~= old_map@.insert(key, value));
}

proof fn lemma_removed<V: View>(old_map: Keyed<V>, new_map: Keyed<V>, key: Seq<char>, at: int)
    requires
        old_map.ordered(),
        new_map.ordered(),
        0 <= at < old_map.entries@.len(),
        old_map.keys()[at] == key,
        new_map.entries@ == old_map.entries@.remove(at),
    ensures
        new_map@ == old_map@.remove(key),
{
    let keys = old_map.keys();
    let new_keys = new_map.keys();
    old_map.lemma_keys();
    assert forall|k: Seq<char>| new_map@.contains_key(k) <==> old_map@.remove(
        key,
    ).contains_key(k) by {
        if new_keys.contains(k) {
            let i = new_keys.index_of(k);
            let j = if i < at { i } else { i + 1 };
            assert(keys[j] == k);
        }
        if keys.contains(k) && k != key {
            let i = keys.index_of(k);
            let j = if i < at { i } else { i - 1 };
            assert(new_keys[j] == k);
        }
    }
    assert forall|k: Seq<char>| new_map@.contains_key(k) implies new_map@[k] == old_map@.remove(
        key,
    )[k] by {
        let i = new_keys.index_of(k);
        new_map.lemma_entry(i);
        let j = if i < at { i } else { i + 1 };
        old_map.lemma_entry(j);
    }
    assert(new_map@ =~= old_map@.remove(key));
}

} // verus!
