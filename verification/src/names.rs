//! A map keyed by names and walked in name order, as the configuration's
//! `[aliases]` and `[mounts]` tables are.
use vstd::prelude::*;

use crate::text::{lemma_seq_lt_total, lemma_seq_lt_transitive, seq_lt, str_lt};

verus! {

/// Entries kept in strictly increasing name order, so every name occurs once.
pub struct NameMap<V> {
    entries: Vec<(String, V)>,
}

impl<V> NameMap<V> {
    /// The names, in order.
    pub closed spec fn keys(&self) -> Seq<Seq<char>> {
        self.entries@.map_values(|e: (String, V)| e.0@)
    }

    /// The values, in the order of their names.
    pub closed spec fn values(&self) -> Seq<V> {
        self.entries@.map_values(|e: (String, V)| e.1)
    }

    /// Names strictly increase; every map keeps this.
    #[verifier::type_invariant]
    pub closed spec fn wf(&self) -> bool {
        forall|i: int, j: int|
            0 <= i < j < self.keys().len() ==> seq_lt(
                #[trigger] self.keys()[i],
                #[trigger] self.keys()[j],
            )
    }

    /// The position of `name`, if present.
    pub open spec fn index_of(&self, name: Seq<char>) -> int {
        choose|k: int| 0 <= k < self.keys().len() && self.keys()[k] == name
    }

    /// Whether `name` is a key.
    pub open spec fn contains(&self, name: Seq<char>) -> bool {
        exists|i: int| 0 <= i < self.keys().len() && self.keys()[i] == name
    }

    /// The value stored under `name`; meaningful only when `contains(name)`.
    pub open spec fn lookup(&self, name: Seq<char>) -> V {
        self.values()[self.index_of(name)]
    }

    pub proof fn lemma_keys_values_len(&self)
        ensures
            self.keys().len() == self.values().len(),
    {
    }

    /// In a well-formed map a name occurs at one position only.
    pub proof fn lemma_unique(&self, i: int, j: int)
        requires
            self.wf(),
            0 <= i < self.keys().len(),
            0 <= j < self.keys().len(),
            self.keys()[i] == self.keys()[j],
        ensures
            i == j,
    {
        if i < j {
            crate::text::lemma_seq_lt_irreflexive(self.keys()[i]);
        } else if j < i {
            crate::text::lemma_seq_lt_irreflexive(self.keys()[i]);
        }
    }

    /// The position of a present name is the one it occurs at.
    pub proof fn lemma_index_of(&self, i: int, name: Seq<char>)
        requires
            self.wf(),
            0 <= i < self.keys().len(),
            self.keys()[i] == name,
        ensures
            self.index_of(name) == i,
            self.contains(name),
    {
        let j = self.index_of(name);
        self.lemma_unique(i, j);
    }

    /// An empty map.
    pub fn new() -> (map: Self)
        ensures
            map.wf(),
            map.keys() == Seq::<Seq<char>>::empty(),
    {
        let map = NameMap { entries: Vec::new() };
        assert(map.keys() =~= Seq::<Seq<char>>::empty());
        map
    }

    /// The number of entries.
    pub fn len(&self) -> (n: usize)
        ensures
            n == self.keys().len(),
            n == self.values().len(),
    {
        self.entries.len()
    }

    /// The name at position `i`.
    pub fn key_at(&self, i: usize) -> (name: &String)
        requires
            i < self.keys().len(),
        ensures
            name@ == self.keys()[i as int],
    {
        &self.entries[i].0
    }

    /// The value at position `i`.
    pub fn value_at(&self, i: usize) -> (value: &V)
        requires
            i < self.keys().len(),
        ensures
            *value == self.values()[i as int],
    {
        &self.entries[i].1
    }

    /// Finds the position of `name` (`BTreeMap::get`'s search).
    pub fn find(&self, name: &str) -> (found: Option<usize>)
        ensures
            match found {
                Some(i) => i < self.keys().len() && self.keys()[i as int] == name@
                    && self.index_of(name@) == i as int,
                None => !self.contains(name@),
            },
    {
        proof {
            use_type_invariant(self);
        }
        let mut i: usize = 0;
        while i < self.entries.len()
            invariant
                i <= self.keys().len(),
                self.wf(),
                forall|k: int| 0 <= k < i ==> self.keys()[k] != name@,
            decreases self.keys().len() - i,
        {
            if crate::text::str_eq(self.entries[i].0.as_str(), name) {
                proof {
                    assert(self.keys()[i as int] == name@);
                    let j = choose|j: int| 0 <= j < self.keys().len() && self.keys()[j] == name@;
                    self.lemma_unique(i as int, j);
                }
                return Some(i);
            }
            i = i + 1;
        }
        None
    }

    /// The value stored under `name` (`BTreeMap::get`).
    pub fn get(&self, name: &str) -> (value: Option<&V>)
        ensures
            match value {
                Some(v) => self.contains(name@) && *v == self.lookup(name@),
                None => !self.contains(name@),
            },
    {
        match self.find(name) {
            Some(i) => Some(&self.entries[i].1),
            None => None,
        }
    }

    /// Whether `name` is a key (`BTreeMap::contains_key`).
    pub fn contains_key(&self, name: &str) -> (found: bool)
        ensures
            found == self.contains(name@),
    {
        self.find(name).is_some()
    }

    /// Stores `value` under `name`, replacing a value already there
    /// (`BTreeMap::insert`).
    pub fn insert(&mut self, name: String, value: V)
        ensures
            final(self).wf(),
            final(self).contains(name@),
            final(self).lookup(name@) == value,
            forall|k: Seq<char>|
                k != name@ ==> (final(self).contains(k) == old(self).contains(k)),
            forall|k: Seq<char>|
                k != name@ && #[trigger] old(self).contains(k) ==> final(self).lookup(k) == old(
                    self,
                ).lookup(k),
    {
        proof {
            use_type_invariant(&*self);
        }
        let ghost before = self.keys();
        let ghost before_values = self.values();
        let mut i: usize = 0;
        while i < self.entries.len()
            invariant
                i <= self.keys().len(),
                self.keys() == before,
                self.values() == before_values,
                self.wf(),
                forall|k: int| 0 <= k < i ==> seq_lt(#[trigger] before[k], name@),
            ensures
                i <= self.keys().len(),
                self.keys() == before,
                self.values() == before_values,
                self.wf(),
                forall|k: int| 0 <= k < i ==> seq_lt(#[trigger] before[k], name@),
                i < self.keys().len() ==> !seq_lt(before[i as int], name@),
            decreases self.keys().len() - i,
        {
            if !str_lt(self.entries[i].0.as_str(), name.as_str()) {
                break;
            }
            i = i + 1;
        }
        assert(i < before.len() ==> before[i as int] == self.entries@[i as int].0@);
        let found = i < self.entries.len() && self.entries[i].0 == name;
        let ghost old_self = *self;
        let ghost key = name@;
        let mut entries: Vec<(String, V)> = Vec::new();
        std::mem::swap(&mut entries, &mut self.entries);
        if found {
            entries.set(i, (name, value));
            let ghost nm = NameMap::<V> { entries: entries };
            proof {
                assert(nm.keys() =~= before);
                assert(nm.values() =~= before_values.update(i as int, value));
                assert(old_self.keys() == before);
                assert(nm.wf());
                assert forall|k: Seq<char>| k != key implies (nm.contains(k) == old_self.contains(k)) by {
                }
                assert(nm.index_of(key) == i as int) by {
                    assert(nm.keys()[i as int] == key);
                    let j = choose|j: int| 0 <= j < nm.keys().len() && nm.keys()[j] == key;
                    nm.lemma_unique(i as int, j);
                }
                assert forall|k: Seq<char>| k != key && #[trigger] old_self.contains(k) implies nm.lookup(k) == old_self.lookup(k) by {
                    let j = old_self.index_of(k);
                    assert(old_self.keys()[j] == k);
                    assert(nm.index_of(k) == j) by {
                        let j2 = choose|j2: int| 0 <= j2 < nm.keys().len() && nm.keys()[j2] == k;
                        nm.lemma_unique(j, j2);
                    }
                    assert(j != i);
                }
            }
            self.entries = entries;
            return;
        }
        proof {
            if i < before.len() {
                lemma_seq_lt_total(before[i as int], key);
                assert(seq_lt(key, before[i as int]));
            }
        }
        entries.insert(i, (name, value));
        let ghost nm = NameMap::<V> { entries: entries };
        proof {
            let after = nm.keys();
            assert(after =~= before.insert(i as int, key));
            assert(nm.values() =~= before_values.insert(i as int, value));
            assert forall|a: int, b: int| 0 <= a < b < after.len() implies seq_lt(
                #[trigger] after[a],
                #[trigger] after[b],
            ) by {
                if b < i {
                    assert(old_self.keys()[a] == after[a]);
                    assert(old_self.keys()[b] == after[b]);
                } else if a < i && b == i {
                } else if a < i && b > i {
                    assert(after[b] == before[b - 1]);
                    if b - 1 > i {
                        assert(seq_lt(before[i as int], before[b - 1]));
                        lemma_seq_lt_transitive(after[a], before[i as int], before[b - 1]);
                    }
                } else if a == i {
                    assert(after[b] == before[b - 1]);
                    if b - 1 > i {
                        assert(seq_lt(before[i as int], before[b - 1]));
                        lemma_seq_lt_transitive(key, before[i as int], before[b - 1]);
                    }
                } else {
                    assert(after[a] == before[a - 1]);
                    assert(after[b] == before[b - 1]);
                    assert(old_self.keys()[a - 1] == after[a]);
                }
            }
            assert(nm.wf());
            nm.lemma_index_of(i as int, key);
            assert forall|k: Seq<char>| k != key implies (nm.contains(k) == old_self.contains(k)) by {
                if nm.contains(k) {
                    let j = choose|j: int| 0 <= j < nm.keys().len() && nm.keys()[j] == k;
                    if j < i {
                        assert(old_self.keys()[j] == k);
                    } else {
                        assert(old_self.keys()[j - 1] == k);
                    }
                }
                if old_self.contains(k) {
                    let j = choose|j: int| 0 <= j < old_self.keys().len() && old_self.keys()[j] == k;
                    if j < i {
                        assert(nm.keys()[j] == k);
                    } else {
                        assert(nm.keys()[j + 1] == k);
                    }
                }
            }
            assert forall|k: Seq<char>| k != key && #[trigger] old_self.contains(k) implies nm.lookup(k) == old_self.lookup(k) by {
                let j = old_self.index_of(k);
                let j2 = if j < i { j } else { j + 1 };
                assert(nm.keys()[j2] == k);
                assert(nm.index_of(k) == j2) by {
                    let j3 = choose|j3: int| 0 <= j3 < nm.keys().len() && nm.keys()[j3] == k;
                    nm.lemma_unique(j2, j3);
                }
            }
        }
        self.entries = entries;
    }
}

} // verus!
