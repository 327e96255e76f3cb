//! A map from names to values that keeps its names in lexicographic order.
//!
//! Ports and properties of optical nodes are stored by name and are always listed in
//! ascending order of their names. [`NameMap`] keeps its entries sorted by name, each
//! name at most once.
use vstd::prelude::*;
use crate::text_order::{seq_lt, strictly_sorted, str_eq, str_lt, lemma_seq_lt_total, lemma_seq_lt_transitive, lemma_sorted_unique};

verus! {

/// A map from names to values, listed in ascending order of the names.
#[derive(Debug, Clone, PartialEq)]
pub struct NameMap<V> {
    entries: Vec<(String, V)>,
}

/// The names of a sequence of entries.
pub open spec fn entry_keys<V>(entries: Seq<(String, V)>) -> Seq<Seq<char>> {
    entries.map_values(|e: (String, V)| e.0@)
}

/// The values of a sequence of entries.
pub open spec fn entry_values<V>(entries: Seq<(String, V)>) -> Seq<V> {
    entries.map_values(|e: (String, V)| e.1)
}

impl<V: Copy> NameMap<V> {
    /// A copy of this map.
    pub fn duplicate(&self) -> (m: Self)
        ensures
            m.keys() == self.keys(),
            m.values() == self.values(),
            m.wf() == self.wf(),
            m.view() == self.view(),
    {
        let mut entries: Vec<(String, V)> = Vec::new();
        let mut i: usize = 0;
        while i < self.entries.len()
            invariant
                i <= self.entries@.len(),
                entries@.len() == i,
                entry_keys(entries@) == self.keys().take(i as int),
                entry_values(entries@) == self.values().take(i as int),
            decreases self.entries@.len() - i,
        {
            let k = self.entries[i].0.clone();
            let v = self.entries[i].1;
            let ghost prev = entries@;
            entries.push((k, v));
            assert(self.keys()[i as int] == self.entries@[i as int].0@);
            assert(self.values()[i as int] == self.entries@[i as int].1);
            assert(entries@[i as int] == (k, v));
            assert(entries@.drop_last() == prev);
            assert(entry_keys(entries@) =~= self.keys().take(i + 1));
            assert(entry_values(entries@) =~= self.values().take(i + 1));
            i = i + 1;
        }
        let m = NameMap { entries };
        assert(m.keys() =~= self.keys());
        assert(m.values() =~= self.values());
        m
    }
}

impl<V> NameMap<V> {
    /// The names of this map, in the order in which they are listed.
    pub closed spec fn keys(self) -> Seq<Seq<char>> {
        entry_keys(self.entries@)
    }

    /// The values of this map, listed in the order of their names.
    pub closed spec fn values(self) -> Seq<V> {
        entry_values(self.entries@)
    }

    /// Well-formedness: the names are strictly ascending (thus each name occurs once).
    pub open spec fn wf(self) -> bool {
        &&& strictly_sorted(self.keys())
        &&& self.keys().len() == self.values().len()
    }

    /// The map from names to values.
    pub open spec fn view(self) -> Map<Seq<char>, V> {
        Map::new(
            |k: Seq<char>| self.keys().contains(k),
            |k: Seq<char>| self.values()[self.keys().index_of(k)],
        )
    }

    proof fn lemma_view_at(self, i: int)
        requires
            self.wf(),
            0 <= i < self.keys().len(),
        ensures
            self.view().contains_key(self.keys()[i]),
            self.view()[self.keys()[i]] == self.values()[i],
            self.keys().index_of(self.keys()[i]) == i,
    {
        let k = self.keys()[i];
        assert(self.keys().contains(k));
        let j = self.keys().index_of(k);
        lemma_sorted_unique(self.keys(), i, j);
    }

    /// Removes the entry with the given name, if present, and returns its value.
    pub fn remove(&mut self, key: &str) -> (r: Option<V>)
        requires
            old(self).wf(),
        ensures
            final(self).wf(),
            final(self).view() == old(self).view().remove(key@),
            r is Some <==> old(self).view().contains_key(key@),
            r matches Some(v) ==> v == old(self).view()[key@],
            r is None ==> final(self).keys() == old(self).keys(),
    {
        let ghost old_map = *self;
        match self.find(key) {
            Some(i) => {
                proof { old_map.lemma_view_at(i as int); }
                let (_k, v) = self.entries.remove(i);
                assert(self.keys() =~= old_map.keys().remove(i as int));
                assert(self.values() =~= old_map.values().remove(i as int));
                proof {
                    let nk = self.keys();
                    let ok = old_map.keys();
                    assert forall|a: int, b: int| 0 <= a < b < nk.len() implies
                        crate::text_order::seq_lt(#[trigger] nk[a], #[trigger] nk[b]) by {
                        if a < i && b >= i {
                            assert(nk[b] == ok[b + 1]);
                        } else if a >= i {
                            assert(nk[a] == ok[a + 1]);
                            assert(nk[b] == ok[b + 1]);
                        }
                    }
                    assert forall|k: Seq<char>| #[trigger] self.view().contains_key(k)
                        == old_map.view().remove(key@).contains_key(k) by {
                        if self.keys().contains(k) {
                            let j = self.keys().index_of(k);
                            if j < i {
                                assert(ok[j] == k);
                            } else {
                                assert(ok[j + 1] == k);
                                if k == key@ {
                                    lemma_sorted_unique(ok, j + 1, i as int);
                                }
                            }
                            if k == key@ && j < i {
                                lemma_sorted_unique(ok, j, i as int);
                            }
                        }
                        if old_map.keys().contains(k) && k != key@ {
                            let j = ok.index_of(k);
                            if j < i {
                                assert(nk[j] == k);
                            } else if j > i {
                                assert(nk[j - 1] == k);
                            }
                        }
                    }
                    assert forall|k: Seq<char>| self.view().contains_key(k) implies
                        #[trigger] self.view()[k] == old_map.view().remove(key@)[k] by {
                        let j = self.keys().index_of(k);
                        assert(self.keys().contains(k));
                        self.lemma_view_at(j);
                        if j < i {
                            assert(ok[j] == k);
                            old_map.lemma_view_at(j);
                        } else {
                            assert(ok[j + 1] == k);
                            old_map.lemma_view_at(j + 1);
                        }
                    }
                    assert(self.view() =~= old_map.view().remove(key@));
                }
                Some(v)
            },
            None => {
                assert(old_map.view().remove(key@) =~= old_map.view());
                None
            },
        }
    }

    /// Consumes the map, handing out its entries in ascending order of names.
    pub fn into_entries(self) -> (v: Vec<(String, V)>)
        ensures
            entry_keys(v@) == self.keys(),
            entry_values(v@) == self.values(),
    {
        self.entries
    }

    /// Every listed entry is in the map, and the names are listed once each.
    pub proof fn lemma_all_entries(self)
        requires
            self.wf(),
        ensures
            forall|j: int| 0 <= j < self.keys().len() ==> self.view().contains_key(#[trigger] self.keys()[j])
                && self.view()[self.keys()[j]] == self.values()[j],
            self.keys().no_duplicates(),
            forall|k: Seq<char>| self.view().contains_key(k) <==> self.keys().contains(k),
    {
        assert forall|j: int| 0 <= j < self.keys().len() implies self.view().contains_key(#[trigger] self.keys()[j])
            && self.view()[self.keys()[j]] == self.values()[j] by {
            self.lemma_view_at(j);
        }
        assert forall|a: int, b: int| 0 <= a < self.keys().len() && 0 <= b < self.keys().len() && a != b
            implies self.keys()[a] != self.keys()[b] by {
            if self.keys()[a] == self.keys()[b] {
                lemma_sorted_unique(self.keys(), a, b);
            }
        }
    }

    /// Two maps listing the same names and values are the same map.
    pub proof fn lemma_same_view(self, other: Self)
        requires
            self.keys() == other.keys(),
            self.values() == other.values(),
        ensures
            self.view() == other.view(),
    {
        assert(self.view() =~= other.view());
    }

    /// The entry at position `i` is in the map.
    pub proof fn lemma_entry(self, i: int)
        requires
            self.wf(),
            0 <= i < self.keys().len(),
        ensures
            self.view().contains_key(self.keys()[i]),
            self.view()[self.keys()[i]] == self.values()[i],
            self.keys().index_of(self.keys()[i]) == i,
    {
        self.lemma_view_at(i);
    }

    /// Creates an empty map.
    pub fn new() -> (m: Self)
        ensures
            m.wf(),
            m.keys() == Seq::<Seq<char>>::empty(),
            m.values() == Seq::<V>::empty(),
            m.view() == Map::<Seq<char>, V>::empty(),
    {
        let m = NameMap { entries: Vec::new() };
        assert(m.keys() =~= Seq::<Seq<char>>::empty());
        assert(m.values() =~= Seq::<V>::empty());
        assert(m.view() =~= Map::<Seq<char>, V>::empty());
        m
    }

    /// Number of entries.
    pub fn len(&self) -> (n: usize)
        ensures
            n == self.keys().len(),
    {
        self.entries.len()
    }

    /// `true` iff the map has no entries.
    pub fn is_empty(&self) -> (b: bool)
        ensures
            b == (self.keys().len() == 0),
    {
        self.entries.len() == 0
    }

    /// The name at position `i`.
    pub fn key_at(&self, i: usize) -> (k: &String)
        requires
            i < self.keys().len(),
        ensures
            k@ == self.keys()[i as int],
    {
        &self.entries[i].0
    }

    /// The names of this map, in ascending order.
    pub fn key_list(&self) -> (ks: Vec<String>)
        ensures
            ks@.map_values(|k: String| k@) == self.keys(),
    {
        let mut ks: Vec<String> = Vec::new();
        let mut i: usize = 0;
        while i < self.entries.len()
            invariant
                i <= self.entries@.len(),
                ks@.map_values(|k: String| k@) == self.keys().take(i as int),
            decreases self.entries@.len() - i,
        {
            ks.push(self.entries[i].0.clone());
            assert(self.keys().take(i + 1) =~= self.keys().take(i as int).push(self.keys()[i as int]));
            assert(ks@.map_values(|k: String| k@) =~= self.keys().take(i + 1));
            i = i + 1;
        }
        assert(self.keys().take(i as int) =~= self.keys());
        ks
    }

    /// The value at position `i`.
    pub fn value_at(&self, i: usize) -> (v: &V)
        requires
            i < self.keys().len(),
        ensures
            *v == self.values()[i as int],
    {
        &self.entries[i].1
    }

    /// Position of the given name, if present.
    pub fn find(&self, key: &str) -> (r: Option<usize>)
        requires
            self.wf(),
        ensures
            r is None ==> !self.keys().contains(key@),
            r matches Some(i) ==> i < self.keys().len() && self.keys()[i as int] == key@
                && self.keys().index_of(key@) == i,
            r is None <==> !self.view().contains_key(key@),
    {
        let mut i: usize = 0;
        while i < self.entries.len()
            invariant
                self.wf(),
                i <= self.entries@.len(),
                forall|j: int| 0 <= j < i ==> self.keys()[j] != key@,
            decreases self.entries@.len() - i,
        {
            if str_eq(self.entries[i].0.as_str(), key) {
                proof { self.lemma_view_at(i as int); }
                return Some(i);
            }
            i = i + 1;
        }
        None
    }

    /// `true` iff the given name is present.
    pub fn contains_key(&self, key: &str) -> (b: bool)
        requires
            self.wf(),
        ensures
            b == self.view().contains_key(key@),
    {
        self.find(key).is_some()
    }

    /// The value stored under the given name, if present.
    pub fn get(&self, key: &str) -> (r: Option<&V>)
        requires
            self.wf(),
        ensures
            r is Some <==> self.view().contains_key(key@),
            r matches Some(v) ==> *v == self.view()[key@],
    {
        match self.find(key) {
            Some(i) => Some(&self.entries[i].1),
            None => None,
        }
    }

    /// Replaces the value at position `i` (the names stay as they are).
    pub fn set_value_at(&mut self, i: usize, v: V)
        requires
            old(self).wf(),
            i < old(self).keys().len(),
        ensures
            final(self).wf(),
            final(self).keys() == old(self).keys(),
            final(self).values() == old(self).values().update(i as int, v),
            final(self).view() == old(self).view().insert(old(self).keys()[i as int], v),
    {
        let ghost old_map = *self;
        let k = self.entries[i].0.clone();
        self.entries.set(i, (k, v));
        assert(self.keys() =~= old_map.keys());
        assert(self.values() =~= old_map.values().update(i as int, v));
        proof {
            old_map.lemma_view_at(i as int);
            assert forall|key: Seq<char>| #[trigger] self.view().contains_key(key)
                == old_map.view().insert(old_map.keys()[i as int], v).contains_key(key) by {}
            assert forall|key: Seq<char>| self.view().contains_key(key) implies
                #[trigger] self.view()[key] == old_map.view().insert(old_map.keys()[i as int], v)[key] by {
                let j = self.keys().index_of(key);
                assert(self.keys().contains(key));
                self.lemma_view_at(j);
                if j != i {
                    old_map.lemma_view_at(j);
                }
            }
            assert(self.view() =~= old_map.view().insert(old_map.keys()[i as int], v));
        }
    }

    /// Inserts a value under a name. An existing value under that name is replaced and returned;
    /// a new name is placed at the position that keeps the names ascending.
    pub fn insert(&mut self, key: String, v: V) -> (r: Option<V>)
        requires
            old(self).wf(),
        ensures
            final(self).wf(),
            final(self).view() == old(self).view().insert(key@, v),
            old(self).view().contains_key(key@) ==> r == Some(old(self).view()[key@])
                && final(self).keys() == old(self).keys(),
            !old(self).view().contains_key(key@) ==> r is None
                && final(self).keys().len() == old(self).keys().len() + 1,
    {
        let ghost old_map = *self;
        match self.find(key.as_str()) {
            Some(i) => {
                proof { old_map.lemma_view_at(i as int); }
                let (k, old_v) = self.entries.remove(i);
                self.entries.insert(i, (k, v));
                assert(self.keys() =~= old_map.keys());
                assert(self.values() =~= old_map.values().update(i as int, v));
                proof { self.lemma_view_after_update(old_map, i as int, v); }
                Some(old_v)
            },
            None => {
                let mut p: usize = 0;
                while p < self.entries.len() && str_lt(self.entries[p].0.as_str(), key.as_str())
                    invariant
                        *self == old_map,
                        self.wf(),
                        p <= self.entries@.len(),
                        forall|j: int| 0 <= j < p ==> seq_lt(#[trigger] self.keys()[j], key@),
                    decreases self.entries@.len() - p,
                {
                    p = p + 1;
                }
                let ghost kv = key@;
                self.entries.insert(p, (key, v));
                assert(self.keys() =~= old_map.keys().insert(p as int, kv));
                assert(self.values() =~= old_map.values().insert(p as int, v));
                proof {
                    let ks = old_map.keys();
                    if p < ks.len() {
                        assert(!seq_lt(ks[p as int], kv));
                        assert(ks[p as int] != kv);
                        lemma_seq_lt_total(ks[p as int], kv);
                        assert forall|j: int| p < j < ks.len() implies seq_lt(kv, #[trigger] ks[j]) by {
                            lemma_seq_lt_transitive(kv, ks[p as int], ks[j]);
                        }
                    }
                    let nk = self.keys();
                    assert forall|a: int, b: int| 0 <= a < b < nk.len() implies seq_lt(#[trigger] nk[a], #[trigger] nk[b]) by {
                        if b < p {
                        } else if b == p {
                        } else if a < p {
                            assert(nk[b] == ks[b - 1]);
                            if b - 1 == p {
                                lemma_seq_lt_total(ks[p as int], kv);
                            } else {
                                lemma_seq_lt_transitive(kv, ks[p as int], ks[b - 1]);
                            }
                            lemma_seq_lt_transitive(nk[a], kv, ks[b - 1]);
                        } else if a == p {
                            assert(nk[b] == ks[b - 1]);
                            if b - 1 == p as int {
                                lemma_seq_lt_total(ks[p as int], kv);
                            } else {
                                lemma_seq_lt_transitive(kv, ks[p as int], ks[b - 1]);
                            }
                        } else {
                            assert(nk[a] == ks[a - 1]);
                            assert(nk[b] == ks[b - 1]);
                        }
                    }
                    self.lemma_view_after_insert(old_map, p as int, kv, v);
                }
                None
            },
        }
    }

    proof fn lemma_view_after_update(self, old_map: Self, i: int, v: V)
        requires
            old_map.wf(),
            self.wf(),
            0 <= i < old_map.keys().len(),
            self.keys() == old_map.keys(),
            self.values() == old_map.values().update(i, v),
        ensures
            self.view() == old_map.view().insert(old_map.keys()[i], v),
    {
        old_map.lemma_view_at(i);
        assert forall|key: Seq<char>| self.view().contains_key(key) implies
            #[trigger] self.view()[key] == old_map.view().insert(old_map.keys()[i], v)[key] by {
            let j = self.keys().index_of(key);
            assert(self.keys().contains(key));
            self.lemma_view_at(j);
            if j != i {
                old_map.lemma_view_at(j);
            }
        }
        assert(self.view() =~= old_map.view().insert(old_map.keys()[i], v));
    }

    proof fn lemma_view_after_insert(self, old_map: Self, p: int, k: Seq<char>, v: V)
        requires
            old_map.wf(),
            self.wf(),
            0 <= p <= old_map.keys().len(),
            self.keys() == old_map.keys().insert(p, k),
            self.values() == old_map.values().insert(p, v),
        ensures
            self.view() == old_map.view().insert(k, v),
    {
        assert forall|key: Seq<char>| #[trigger] self.view().contains_key(key)
            == old_map.view().insert(k, v).contains_key(key) by {
            if self.keys().contains(key) {
                let j = self.keys().index_of(key);
                if j < p {
                    assert(old_map.keys()[j] == key);
                } else if j > p {
                    assert(old_map.keys()[j - 1] == key);
                }
            }
            if old_map.keys().contains(key) {
                let j = old_map.keys().index_of(key);
                if j < p {
                    assert(self.keys()[j] == key);
                } else {
                    assert(self.keys()[j + 1] == key);
                }
            }
            assert(self.keys()[p] == k);
        }
        assert forall|key: Seq<char>| self.view().contains_key(key) implies
            #[trigger] self.view()[key] == old_map.view().insert(k, v)[key] by {
            let j = self.keys().index_of(key);
            assert(self.keys().contains(key));
            self.lemma_view_at(j);
            assert(self.keys()[p] == k);
            if j != p && key == k {
                lemma_sorted_unique(self.keys(), j, p);
            }
            if j < p {
                assert(self.keys()[j] == old_map.keys()[j]);
                assert(self.values()[j] == old_map.values()[j]);
                old_map.lemma_view_at(j);
            } else if j > p {
                assert(self.keys()[j] == old_map.keys()[j - 1]);
                assert(self.values()[j] == old_map.values()[j - 1]);
                old_map.lemma_view_at(j - 1);
            }
        }
        assert(self.view() =~= old_map.view().insert(k, v));
    }
}

} // verus!
