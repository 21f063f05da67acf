//! A small map from text keys to values that keeps its entries in the order
//! in which their keys first came.

use vstd::prelude::*;
use vstd::string::*;

verus! {

/// A map from text keys to values of `V`.
pub struct SharedMap<V> {
    entries: Vec<(String, V)>,
}

impl<V> SharedMap<V> {
    /// The keys, in the order of the entries.
    pub closed spec fn keys(&self) -> Seq<Seq<char>> {
        Seq::new(self.entries@.len(), |i: int| self.entries@[i].0@)
    }

    /// The values, in the order of the entries.
    pub closed spec fn values(&self) -> Seq<V> {
        Seq::new(self.entries@.len(), |i: int| self.entries@[i].1)
    }

    /// No key stands twice.
    pub open spec fn wf(&self) -> bool {
        &&& self.keys().len() == self.values().len()
        &&& self.keys().no_duplicates()
    }

    /// Where `key` stands among the keys, if it does.
    pub open spec fn position(&self, key: Seq<char>) -> Option<int> {
        if self.keys().contains(key) {
            Some(self.keys().index_of(key))
        } else {
            None
        }
    }

    /// The value under `key`, if there is one.
    pub open spec fn lookup(&self, key: Seq<char>) -> Option<V> {
        match self.position(key) {
            Some(at) => Some(self.values()[at]),
            None => None,
        }
    }

    /// There are as many keys as values.
    pub proof fn lemma_lengths(&self)
        ensures
            self.keys().len() == self.values().len(),
    {
    }

    /// In a map without doubled keys, the entry at `at` is the one found
    /// under its key.
    pub proof fn lemma_position(&self, at: int)
        requires
            self.wf(),
            0 <= at < self.keys().len(),
        ensures
            self.position(self.keys()[at]) == Some(at),
            self.lookup(self.keys()[at]) == Some(self.values()[at]),
    {
        let key = self.keys()[at];
        assert(self.keys().contains(key));
        let found = self.keys().index_of(key);
        assert(0 <= found < self.keys().len() && self.keys()[found] == key);
    }

    /// A key that is found stands at the position found.
    pub proof fn lemma_found(&self, key: Seq<char>)
        requires
            self.position(key) is Some,
        ensures
            0 <= self.position(key)->0 < self.keys().len(),
            self.keys()[self.position(key)->0] == key,
    {
    }

    /// The empty map.
    pub fn new() -> (map: SharedMap<V>)
        ensures
            map.wf(),
            map.keys() == Seq::<Seq<char>>::empty(),
            map.values() == Seq::<V>::empty(),
    {
        let map = SharedMap { entries: Vec::new() };
        assert(map.keys() =~= Seq::<Seq<char>>::empty());
        assert(map.values() =~= Seq::<V>::empty());
        map
    }

    /// How many entries the map has.
    pub fn len(&self) -> (count: usize)
        ensures
            count == self.keys().len(),
            count == self.values().len(),
    {
        self.entries.len()
    }

    /// The key of the entry at `at`.
    pub fn key_at(&self, at: usize) -> (key: &String)
        requires
            at < self.keys().len(),
        ensures
            key@ == self.keys()[at as int],
    {
        &self.entries[at].0
    }

    /// The value of the entry at `at`.
    pub fn value_at(&self, at: usize) -> (value: &V)
        requires
            at < self.values().len(),
        ensures
            *value == self.values()[at as int],
    {
        &self.entries[at].1
    }

    /// Puts a new entry at position `at`; the entries from there on move
    /// one place up.
    pub fn insert_at(&mut self, at: usize, key: String, value: V)
        requires
            old(self).wf(),
            at <= old(self).keys().len(),
            !old(self).keys().contains(key@),
        ensures
            final(self).wf(),
            final(self).keys() == old(self).keys().insert(at as int, key@),
            final(self).values() == old(self).values().insert(at as int, value),
    {
        self.entries.insert(at, (key, value));
        assert(self.keys() =~= old(self).keys().insert(at as int, key@));
        assert(self.values() =~= old(self).values().insert(at as int, value));
        assert(self.keys().no_duplicates()) by {
            let before = old(self).keys();
            let after = self.keys();
            assert forall|i: int, j: int|
                0 <= i < after.len() && 0 <= j < after.len() && i != j implies after[i]
                != after[j] by {
                let oi = if i < at { i } else { i - 1 };
                let oj = if j < at { j } else { j - 1 };
                if i == at {
                    assert(after[j] == before[oj]);
                    assert(before.contains(before[oj]));
                } else if j == at {
                    assert(after[i] == before[oi]);
                    assert(before.contains(before[oi]));
                } else {
                    assert(after[i] == before[oi]);
                    assert(after[j] == before[oj]);
                }
            }
        }
    }

    /// Where `key` stands, if it does.
    pub fn find(&self, key: &str) -> (found: Option<usize>)
        requires
            self.wf(),
        ensures
            match found {
                Some(at) => self.position(key@) == Some(at as int) && at < self.keys().len(),
                None => self.position(key@) is None,
            },
    {
        let wanted = key.to_owned();
        let mut at: usize = 0;
        while at < self.entries.len()
            invariant
                at <= self.entries.len(),
                self.wf(),
                wanted@ == key@,
                forall|i: int| 0 <= i < at ==> self.keys()[i] != key@,
            decreases self.entries.len() - at,
        {
            if self.entries[at].0 == wanted {
                proof {
                    self.lemma_position(at as int);
                }
                return Some(at);
            }
            at += 1;
        }
        None
    }

    /// Whether there is a value under `key`.
    pub fn contains_key(&self, key: &str) -> (found: bool)
        requires
            self.wf(),
        ensures
            found == self.lookup(key@).is_some(),
    {
        self.find(key).is_some()
    }

    /// The value under `key`, if there is one.
    pub fn get(&self, key: &str) -> (value: Option<&V>)
        requires
            self.wf(),
        ensures
            match value {
                Some(it) => self.lookup(key@) == Some(*it),
                None => self.lookup(key@) is None,
            },
    {
        match self.find(key) {
            Some(at) => Some(&self.entries[at].1),
            None => None,
        }
    }

    /// Puts `value` under `key` and hands back what stood there before. A
    /// new key goes to the end; a known key keeps its place.
    pub fn insert(&mut self, key: String, value: V) -> (before: Option<V>)
        requires
            old(self).wf(),
        ensures
            final(self).wf(),
            before == old(self).lookup(key@),
            match old(self).position(key@) {
                Some(at) => {
                    &&& final(self).keys() == old(self).keys()
                    &&& final(self).values() == old(self).values().update(at, value)
                },
                None => {
                    &&& final(self).keys() == old(self).keys().push(key@)
                    &&& final(self).values() == old(self).values().push(value)
                },
            },
    {
        match self.find(key.as_str()) {
            Some(at) => {
                let (_, previous) = self.entries.remove(at);
                self.entries.insert(at, (key, value));
                assert(self.keys() =~= old(self).keys());
                assert(self.values() =~= old(self).values().update(at as int, value));
                Some(previous)
            },
            None => {
                self.entries.push((key, value));
                assert(self.keys() =~= old(self).keys().push(key@));
                assert(self.values() =~= old(self).values().push(value));
                assert(self.keys().no_duplicates()) by {
                    assert(!old(self).keys().contains(key@));
                }
                None
            },
        }
    }

    /// Takes the entry under `key` out and hands its value back. The other
    /// entries keep their order.
    pub fn remove(&mut self, key: &str) -> (taken: Option<V>)
        requires
            old(self).wf(),
        ensures
            final(self).wf(),
            taken == old(self).lookup(key@),
            match old(self).position(key@) {
                Some(at) => {
                    &&& final(self).keys() == old(self).keys().remove(at)
                    &&& final(self).values() == old(self).values().remove(at)
                },
                None => {
                    &&& final(self).keys() == old(self).keys()
                    &&& final(self).values() == old(self).values()
                },
            },
    {
        match self.find(key) {
            Some(at) => {
                let (_, value) = self.entries.remove(at);
                assert(self.keys() =~= old(self).keys().remove(at as int));
                assert(self.values() =~= old(self).values().remove(at as int));
                Some(value)
            },
            None => None,
        }
    }

    /// Takes the entry at `at` out and hands it back.
    pub fn remove_at(&mut self, at: usize) -> (taken: (String, V))
        requires
            old(self).wf(),
            at < old(self).keys().len(),
        ensures
            final(self).wf(),
            taken.0@ == old(self).keys()[at as int],
            taken.1 == old(self).values()[at as int],
            final(self).keys() == old(self).keys().remove(at as int),
            final(self).values() == old(self).values().remove(at as int),
    {
        let taken = self.entries.remove(at);
        assert(self.keys() =~= old(self).keys().remove(at as int));
        assert(self.values() =~= old(self).values().remove(at as int));
        taken
    }
}

/// After a key is put in, it is found with the new value, and every other
/// key is found as before.
pub proof fn lemma_insert_lookup<V>(
    before: SharedMap<V>,
    after: SharedMap<V>,
    key: Seq<char>,
    value: V,
    other: Seq<char>,
)
    requires
        before.wf(),
        after.wf(),
        match before.position(key) {
            Some(at) => {
                &&& after.keys() == before.keys()
                &&& after.values() == before.values().update(at, value)
            },
            None => {
                &&& after.keys() == before.keys().push(key)
                &&& after.values() == before.values().push(value)
            },
        },
    ensures
        after.lookup(key) == Some(value),
        other != key ==> after.lookup(other) == before.lookup(other),
{
    match before.position(key) {
        Some(at) => {
            before.lemma_found(key);
            after.lemma_position(at);
            if other != key && before.position(other) is Some {
                before.lemma_found(other);
            }
        },
        None => {
            let last = before.keys().len() as int;
            assert(after.keys()[last] == key);
            after.lemma_position(last);
            if other != key {
                if before.position(other) is Some {
                    before.lemma_found(other);
                    let at = before.position(other)->0;
                    assert(after.keys()[at] == other);
                    after.lemma_position(at);
                } else {
                    if after.position(other) is Some {
                        after.lemma_found(other);
                        let at = after.position(other)->0;
                        assert(at < last);
                        assert(before.keys()[at] == other);
                        assert(before.keys().contains(other));
                    }
                }
            }
        },
    }
}

/// After a key is taken out, it is not found, and every other key is found
/// as before.
pub proof fn lemma_remove_lookup<V>(
    before: SharedMap<V>,
    after: SharedMap<V>,
    key: Seq<char>,
    other: Seq<char>,
)
    requires
        before.wf(),
        after.wf(),
        match before.position(key) {
            Some(at) => {
                &&& after.keys() == before.keys().remove(at)
                &&& after.values() == before.values().remove(at)
            },
            None => {
                &&& after.keys() == before.keys()
                &&& after.values() == before.values()
            },
        },
    ensures
        after.lookup(key) is None,
        other != key ==> after.lookup(other) == before.lookup(other),
{
    match before.position(key) {
        Some(at) => {
            before.lemma_found(key);
            if after.position(key) is Some {
                after.lemma_found(key);
                let found = after.position(key)->0;
                let origin = if found < at { found } else { found + 1 };
                assert(before.keys()[origin] == key);
                assert(false);
            }
            if other != key {
                if before.position(other) is Some {
                    before.lemma_found(other);
                    let was = before.position(other)->0;
                    let now = if was < at { was } else { was - 1 };
                    assert(after.keys()[now] == other);
                    after.lemma_position(now);
                } else {
                    if after.position(other) is Some {
                        after.lemma_found(other);
                        let found = after.position(other)->0;
                        let origin = if found < at { found } else { found + 1 };
                        assert(before.keys()[origin] == other);
                        assert(before.keys().contains(other));
                    }
                }
            }
        },
        None => {
            before.lemma_lengths();
            if other != key && before.position(other) is Some {
                before.lemma_found(other);
                after.lemma_position(before.position(other)->0);
            }
        },
    }
}

} // verus!
