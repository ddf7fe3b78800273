//! String-keyed maps kept in key order, and the attribute maps built on them.

use vstd::prelude::*;
use crate::strings::{seq_lt, lemma_seq_lt_irreflexive, lemma_seq_lt_transitive, lemma_seq_lt_total, str_less, str_eq};

verus! {

/// Keys in strictly increasing order (and so without repeats).
pub open spec fn sorted_keys(ks: Seq<Seq<char>>) -> bool {
    forall|i: int, j: int| 0 <= i < j < ks.len() ==> seq_lt(ks[i], ks[j])
}

/// A map from strings to values whose entries are kept in key order, the way
/// a `BTreeMap<String, V>` hands them out.
pub struct StrMap<V> {
    keys: Vec<String>,
    vals: Vec<V>,
}

/// Element attributes: a key-ordered map from attribute names to values.
pub type Attributes = StrMap<String>;

proof fn lemma_sorted_unique(ks: Seq<Seq<char>>)
    requires
        sorted_keys(ks),
    ensures
        ks.no_duplicates(),
{
    assert forall|i: int, j: int| 0 <= i < ks.len() && 0 <= j < ks.len() && i != j implies ks[i]
        != ks[j] by {
        if i < j {
            lemma_seq_lt_irreflexive(ks[i]);
        } else {
            lemma_seq_lt_irreflexive(ks[j]);
        }
    }
}

impl<V> StrMap<V> {
    /// The keys, in order.
    pub closed spec fn key_seq(&self) -> Seq<Seq<char>> {
        self.keys@.map_values(|k: String| k@)
    }

    /// The values, in the order of their keys.
    pub closed spec fn value_seq(&self) -> Seq<V> {
        self.vals@
    }

    /// Well-formedness: one value per key, keys strictly increasing.
    pub closed spec fn wf(&self) -> bool {
        &&& self.keys@.len() == self.vals@.len()
        &&& sorted_keys(self.key_seq())
    }

    /// Facts linking the ordered entries to the map view.
    pub proof fn lemma_entries(&self)
        requires
            self.wf(),
        ensures
            self.key_seq().len() == self.value_seq().len(),
            sorted_keys(self.key_seq()),
            forall|i: int|
                0 <= i < self.key_seq().len() ==> #[trigger] self@.contains_key(self.key_seq()[i])
                    && self@[self.key_seq()[i]] == self.value_seq()[i],
            forall|k: Seq<char>| #[trigger]
                self@.contains_key(k) <==> self.key_seq().contains(k),
    {
        lemma_sorted_unique(self.key_seq());
        assert forall|i: int| 0 <= i < self.key_seq().len() implies #[trigger] self@.contains_key(
            self.key_seq()[i],
        ) && self@[self.key_seq()[i]] == self.value_seq()[i] by {
            let k = self.key_seq()[i];
            assert(self.key_seq().contains(k));
            let j = self.key_seq().index_of(k);
            assert(self.key_seq()[j] == k);
        }
    }

    /// An empty map.
    pub fn new() -> (res: Self)
        ensures
            res.wf(),
            res@ == Map::<Seq<char>, V>::empty(),
            res.key_seq().len() == 0,
    {
        let res = StrMap { keys: Vec::new(), vals: Vec::new() };
        assert(res@ =~= Map::<Seq<char>, V>::empty());
        res
    }

    /// Number of entries.
    pub fn len(&self) -> (res: usize)
        requires
            self.wf(),
        ensures
            res == self.key_seq().len(),
    {
        self.keys.len()
    }

    /// Whether the map holds no entry.
    pub fn is_empty(&self) -> (res: bool)
        requires
            self.wf(),
        ensures
            res == (self.key_seq().len() == 0),
            res == (self@ =~= Map::<Seq<char>, V>::empty()),
    {
        proof {
            self.lemma_entries();
            if self.key_seq().len() > 0 {
                assert(self@.contains_key(self.key_seq()[0]));
            }
        }
        self.keys.len() == 0
    }

    /// The key of the entry at position `i` in key order.
    pub fn key_at(&self, i: usize) -> (res: &String)
        requires
            self.wf(),
            i < self.key_seq().len(),
        ensures
            res@ == self.key_seq()[i as int],
    {
        &self.keys[i]
    }

    /// The value of the entry at position `i` in key order.
    pub fn value_at(&self, i: usize) -> (res: &V)
        requires
            self.wf(),
            i < self.key_seq().len(),
        ensures
            *res == self.value_seq()[i as int],
    {
        &self.vals[i]
    }

    /// Position of `k`, or the position at which it would be inserted.
    fn locate(&self, k: &str) -> (res: (usize, bool))
        requires
            self.wf(),
        ensures
            res.0 <= self.key_seq().len(),
            forall|i: int| 0 <= i < res.0 ==> seq_lt(#[trigger] self.key_seq()[i], k@),
            res.1 ==> res.0 < self.key_seq().len() && self.key_seq()[res.0 as int] == k@,
            !res.1 && res.0 < self.key_seq().len() ==> seq_lt(k@, self.key_seq()[res.0 as int]),
    {
        let mut i: usize = 0;
        while i < self.keys.len()
            invariant
                self.wf(),
                i <= self.key_seq().len(),
                forall|j: int| 0 <= j < i ==> seq_lt(#[trigger] self.key_seq()[j], k@),
            decreases self.keys.len() - i,
        {
            let key = self.keys[i].as_str();
            if !str_less(key, k) {
                if str_eq(key, k) {
                    return (i, true);
                } else {
                    proof {
                        lemma_seq_lt_total(self.key_seq()[i as int], k@);
                    }
                    return (i, false);
                }
            }
            i = i + 1;
        }
        (i, false)
    }

    /// Whether `k` has an entry.
    pub fn contains_key(&self, k: &str) -> (res: bool)
        requires
            self.wf(),
        ensures
            res == self@.contains_key(k@),
    {
        proof {
            self.lemma_entries();
        }
        let (i, found) = self.locate(k);
        proof {
            if !found && self.key_seq().contains(k@) {
                let j = self.key_seq().index_of(k@);
                if j < i {
                    lemma_seq_lt_irreflexive(k@);
                } else if j > i {
                    lemma_seq_lt_transitive(k@, self.key_seq()[i as int], self.key_seq()[j]);
                    lemma_seq_lt_irreflexive(k@);
                } else {
                    lemma_seq_lt_irreflexive(k@);
                }
            }
        }
        found
    }

    /// The value under `k`, if any.
    pub fn get(&self, k: &str) -> (res: Option<&V>)
        requires
            self.wf(),
        ensures
            res matches Some(v) ==> self@.contains_key(k@) && *v == self@[k@],
            res is None ==> !self@.contains_key(k@),
    {
        proof {
            self.lemma_entries();
        }
        let (i, found) = self.locate(k);
        if found {
            proof {
                assert(self.key_seq()[i as int] == k@);
                assert(self@.contains_key(self.key_seq()[i as int]));
            }
            Some(&self.vals[i])
        } else {
            proof {
                if self.key_seq().contains(k@) {
                    let j = self.key_seq().index_of(k@);
                    lemma_seq_lt_irreflexive(k@);
                    if j > i {
                        lemma_seq_lt_transitive(k@, self.key_seq()[i as int], self.key_seq()[j]);
                    }
                }
            }
            None
        }
    }

    /// Inserts `v` under `k`, handing back the value it replaces.
    pub fn insert(&mut self, k: String, v: V) -> (res: Option<V>)
        requires
            old(self).wf(),
        ensures
            final(self).wf(),
            final(self)@ == old(self)@.insert(k@, v),
            res matches Some(x) ==> old(self)@.contains_key(k@) && x == old(self)@[k@],
            res is None ==> !old(self)@.contains_key(k@),
    {
        proof {
            self.lemma_entries();
            lemma_sorted_unique(self.key_seq());
        }
        let ghost old_keys = self.key_seq();
        let ghost old_map = self@;
        let (i, found) = self.locate(k.as_str());
        if found {
            let mut x = v;
            let ghost vv = x;
            std::mem::swap(&mut self.vals[i], &mut x);
            proof {
                assert(self.key_seq() =~= old_keys);
                assert(self.vals@ =~= old(self).vals@.update(i as int, vv));
                assert(self@ =~= old_map.insert(k@, vv)) by {
                    assert forall|key: Seq<char>| #[trigger] self@.contains_key(key) implies self@[key]
                        == old_map.insert(k@, vv)[key] by {
                        let j = self.key_seq().index_of(key);
                        if key == k@ {
                            assert(j == i);
                        } else {
                            assert(j != i);
                        }
                    }
                }
            }
            Some(x)
        } else {
            proof {
                if old_keys.contains(k@) {
                    let j = old_keys.index_of(k@);
                    lemma_seq_lt_irreflexive(k@);
                    if j > i {
                        lemma_seq_lt_transitive(k@, old_keys[i as int], old_keys[j]);
                    }
                }
            }
            let ghost kv = k@;
            self.keys.insert(i, k);
            self.vals.insert(i, v);
            proof {
                assert(self.key_seq() =~= old_keys.insert(i as int, kv));
                let ks = self.key_seq();
                assert(sorted_keys(ks)) by {
                    assert forall|a: int, b: int| 0 <= a < b < ks.len() implies seq_lt(
                        ks[a],
                        ks[b],
                    ) by {
                        if a < i && b == i {
                        } else if a < i && b > i {
                            assert(ks[b] == old_keys[b - 1]);
                        } else if a == i && b > i {
                            assert(ks[b] == old_keys[b - 1]);
                            if b - 1 > i {
                                lemma_seq_lt_transitive(kv, old_keys[i as int], old_keys[b - 1]);
                            }
                        } else if a > i {
                            assert(ks[a] == old_keys[a - 1]);
                            assert(ks[b] == old_keys[b - 1]);
                        }
                    }
                }
                lemma_sorted_unique(ks);
                assert(self@ =~= old_map.insert(kv, v)) by {
                    assert forall|key: Seq<char>| #[trigger]
                        self@.contains_key(key) == old_map.insert(kv, v).contains_key(key) by {
                        if key == kv {
                            assert(ks[i as int] == kv);
                        } else if old_keys.contains(key) {
                            let j = old_keys.index_of(key);
                            if j < i {
                                assert(ks[j] == key);
                            } else {
                                assert(ks[j + 1] == key);
                            }
                        } else if ks.contains(key) {
                            let j = ks.index_of(key);
                            if j < i {
                                assert(old_keys[j] == key);
                            } else if j > i {
                                assert(old_keys[j - 1] == key);
                            }
                        }
                    }
                    assert forall|key: Seq<char>| #[trigger] self@.contains_key(key) implies self@[key]
                        == old_map.insert(kv, v)[key] by {
                        let j = ks.index_of(key);
                        if key == kv {
                            assert(j == i);
                        } else if j < i {
                            assert(old_keys[j] == key);
                            assert(old_keys.index_of(key) == j);
                        } else {
                            assert(j != i);
                            assert(old_keys[j - 1] == key);
                            assert(old_keys.index_of(key) == j - 1);
                        }
                    }
                }
            }
            None
        }
    }
    /// Removes the entry under `k`, handing back its value.
    pub fn remove(&mut self, k: &str) -> (res: Option<V>)
        requires
            old(self).wf(),
        ensures
            final(self).wf(),
            final(self)@ == old(self)@.remove(k@),
            res matches Some(x) ==> old(self)@.contains_key(k@) && x == old(self)@[k@],
            res is None ==> !old(self)@.contains_key(k@),
    {
        proof {
            self.lemma_entries();
            lemma_sorted_unique(self.key_seq());
        }
        let ghost old_keys = self.key_seq();
        let ghost old_map = self@;
        let (i, found) = self.locate(k);
        if !found {
            proof {
                if old_keys.contains(k@) {
                    let j = old_keys.index_of(k@);
                    lemma_seq_lt_irreflexive(k@);
                    if j > i {
                        lemma_seq_lt_transitive(k@, old_keys[i as int], old_keys[j]);
                    }
                }
                assert(self@ =~= old_map.remove(k@));
            }
            return None;
        }
        let _ = self.keys.remove(i);
        let x = self.vals.remove(i);
        proof {
            let ks = self.key_seq();
            assert(ks =~= old_keys.remove(i as int));
            assert(sorted_keys(ks)) by {
                assert forall|a: int, b: int| 0 <= a < b < ks.len() implies seq_lt(ks[a], ks[b]) by {
                    let oa = if a < i { a } else { a + 1 };
                    let ob = if b < i { b } else { b + 1 };
                    assert(ks[a] == old_keys[oa]);
                    assert(ks[b] == old_keys[ob]);
                }
            }
            lemma_sorted_unique(ks);
            assert(self@ =~= old_map.remove(k@)) by {
                assert forall|key: Seq<char>| #[trigger]
                    self@.contains_key(key) == old_map.remove(k@).contains_key(key) by {
                    if ks.contains(key) {
                        let j = ks.index_of(key);
                        let oj = if j < i { j } else { j + 1 };
                        assert(old_keys[oj] == key);
                        assert(key != k@);
                    } else if old_keys.contains(key) && key != k@ {
                        let j = old_keys.index_of(key);
                        if j < i {
                            assert(ks[j] == key);
                        } else {
                            assert(j != i);
                            assert(ks[j - 1] == key);
                        }
                    }
                }
                assert forall|key: Seq<char>| #[trigger] self@.contains_key(key) implies self@[key]
                    == old_map.remove(k@)[key] by {
                    let j = ks.index_of(key);
                    let oj = if j < i { j } else { j + 1 };
                    assert(old_keys[oj] == key);
                    assert(old_keys.index_of(key) == oj);
                }
            }
        }
        Some(x)
    }
}

/// The keys among the first `j` of a key sequence.
pub open spec fn first_keys(ks: Seq<Seq<char>>, j: int) -> Set<Seq<char>> {
    Set::new(|k: Seq<char>| exists|i: int| 0 <= i < j && ks[i] == k)
}

/// An attribute map with its values taken by their characters.
pub open spec fn attr_view(m: Map<Seq<char>, String>) -> Map<Seq<char>, Seq<char>> {
    m.map_values(|v: String| v@)
}

impl StrMap<String> {
    /// Copies every entry of `other` in, replacing the values of keys it
    /// shares.
    pub fn merge_from(&mut self, other: &StrMap<String>)
        requires
            old(self).wf(),
            other.wf(),
        ensures
            final(self).wf(),
            attr_view(final(self)@) == attr_view(old(self)@).union_prefer_right(attr_view(other@)),
    {
        proof {
            other.lemma_entries();
        }
        let ghost start = attr_view(self@);
        let ghost ks = other.key_seq();
        let ghost full = attr_view(other@);
        let n = other.len();
        let mut j: usize = 0;
        proof {
            assert(first_keys(ks, 0) =~= Set::<Seq<char>>::empty());
            assert(start.union_prefer_right(full.restrict(first_keys(ks, 0))) =~= start);
        }
        while j < n
            invariant
                j <= n,
                n == ks.len(),
                ks == other.key_seq(),
                full == attr_view(other@),
                self.wf(),
                other.wf(),
                forall|i: int|
                    0 <= i < ks.len() ==> #[trigger] other@.contains_key(ks[i]) && other@[ks[i]]
                        == other.value_seq()[i],
                forall|k: Seq<char>| #[trigger] other@.contains_key(k) <==> ks.contains(k),
                attr_view(self@) == start.union_prefer_right(full.restrict(first_keys(ks, j as int))),
            decreases n - j,
        {
            let k = other.key_at(j).clone();
            let v = other.value_at(j).clone();
            let ghost before = attr_view(self@);
            let ghost kv = k@;
            let ghost vv = v@;
            let _ = self.insert(k, v);
            proof {
                assert forall|x: Seq<char>| #[trigger] first_keys(ks, j + 1).contains(x) == first_keys(
                    ks,
                    j as int,
                ).insert(ks[j as int]).contains(x) by {
                    if first_keys(ks, j + 1).contains(x) && x != ks[j as int] {
                        let i = choose|i: int| 0 <= i < j + 1 && ks[i] == x;
                        assert(i < j);
                    }
                    if x == ks[j as int] {
                        assert(0 <= j < j + 1 && ks[j as int] == x);
                    }
                }
                assert(first_keys(ks, j + 1) =~= first_keys(ks, j as int).insert(ks[j as int]));
                assert(kv == ks[j as int]);
                assert(other@.contains_key(kv));
                assert(full[kv] == vv);
                assert(attr_view(self@) =~= before.insert(kv, vv));
                assert(attr_view(self@) =~= start.union_prefer_right(
                    full.restrict(first_keys(ks, j + 1)),
                ));
            }
            j = j + 1;
        }
        proof {
            assert forall|k: Seq<char>| full.dom().contains(k) implies first_keys(ks, n as int).contains(
                k,
            ) by {
                assert(ks.contains(k));
                let i = choose|i: int| 0 <= i < ks.len() && ks[i] == k;
                assert(0 <= i < n && ks[i] == k);
            }
            assert(full.restrict(first_keys(ks, n as int)) =~= full);
        }
    }
}

/// The entries of an attribute map, in key order, with their values taken
/// by their characters.
pub open spec fn entries_view(m: &StrMap<String>) -> Seq<(Seq<char>, Seq<char>)> {
    Seq::new(m.key_seq().len(), |i: int| (m.key_seq()[i], m.value_seq()[i]@))
}

impl StrMap<String> {
    /// The entries, in key order.
    pub fn entries(&self) -> (res: Vec<(String, String)>)
        requires
            self.wf(),
        ensures
            res@.map_values(|p: (String, String)| (p.0@, p.1@)) == entries_view(self),
    {
        proof {
            self.lemma_entries();
        }
        let mut res: Vec<(String, String)> = Vec::new();
        let n = self.len();
        let mut i: usize = 0;
        while i < n
            invariant
                i <= n,
                n == self.key_seq().len(),
                self.wf(),
                self.value_seq().len() == n,
                res@.len() == i,
                forall|k: int|
                    0 <= k < i ==> (#[trigger] res@[k]).0@ == self.key_seq()[k] && res@[k].1@
                        == self.value_seq()[k]@,
            decreases n - i,
        {
            res.push((self.key_at(i).clone(), self.value_at(i).clone()));
            i = i + 1;
        }
        proof {
            assert(res@.map_values(|p: (String, String)| (p.0@, p.1@)) =~= entries_view(self));
        }
        res
    }
}

impl StrMap<String> {
    /// A map with the same entries.
    pub fn copy(&self) -> (res: StrMap<String>)
        requires
            self.wf(),
        ensures
            res.wf(),
            attr_view(res@) == attr_view(self@),
    {
        let mut res = StrMap::new();
        res.merge_from(self);
        proof {
            assert(attr_view(Map::<Seq<char>, String>::empty()) =~= Map::<Seq<char>, Seq<char>>::empty());
            assert(Map::<Seq<char>, Seq<char>>::empty().union_prefer_right(attr_view(self@)) =~= attr_view(
                self@,
            ));
        }
        res
    }

    /// Sets `k` to `v`.
    pub fn set(&mut self, k: &str, v: String)
        requires
            old(self).wf(),
        ensures
            final(self).wf(),
            attr_view(final(self)@) == attr_view(old(self)@).insert(k@, v@),
    {
        let ghost before = attr_view(self@);
        let ghost vv = v@;
        let _ = self.insert(k.to_owned(), v);
        proof {
            assert(attr_view(self@) =~= before.insert(k@, vv));
        }
    }
}

impl<V> View for StrMap<V> {
    type V = Map<Seq<char>, V>;

    closed spec fn view(&self) -> Map<Seq<char>, V> {
        Map::new(
            |k: Seq<char>| self.key_seq().contains(k),
            |k: Seq<char>| self.vals@[self.key_seq().index_of(k)],
        )
    }
}

} // verus!
