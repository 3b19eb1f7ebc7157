//! A small map from symbol (or asset) names to values, kept as a list of
//! pairs with distinct keys, so that it is read as a `Map` in contracts.
//!
//! vstd relates std's `HashMap` and `BTreeMap` to a `Map` only for key
//! types that obey its hashing or ordering model (integers and `bool`);
//! `String` keys are not among them, and vstd's `StringHashMap` neither
//! lists its keys nor hands back what it removes. The names are few (one
//! per configured symbol or held asset), so a scan of a list costs little.

use vstd::prelude::*;
use crate::text::str_eq;

verus! {

/// The map that a list of (key, value) pairs with distinct keys stands for.
pub open spec fn pairs_map<V>(pairs: Seq<(Seq<char>, V)>) -> Map<Seq<char>, V> {
    Map::new(
        |k: Seq<char>| exists|i: int| 0 <= i < pairs.len() && (#[trigger] pairs[i]).0 == k,
        |k: Seq<char>| pairs[choose|i: int| 0 <= i < pairs.len() && (#[trigger] pairs[i]).0 == k].1,
    )
}

/// The value that `m` gives `k`, if any.
pub open spec fn lookup<V>(m: Map<Seq<char>, V>, k: Seq<char>) -> Option<V> {
    if m.dom().contains(k) {
        Some(m[k])
    } else {
        None
    }
}

/// No key occurs twice in `pairs`.
pub open spec fn keys_distinct<V>(pairs: Seq<(Seq<char>, V)>) -> bool {
    forall|i: int, j: int|
        0 <= i < pairs.len() && 0 <= j < pairs.len() && i != j ==> (#[trigger] pairs[i]).0 != (
        #[trigger] pairs[j]).0
}

/// In a list with distinct keys, the map gives each key the value listed with it.
pub proof fn lemma_pairs_map_at<V>(pairs: Seq<(Seq<char>, V)>, i: int)
    requires
        keys_distinct(pairs),
        0 <= i < pairs.len(),
    ensures
        pairs_map(pairs).dom().contains(pairs[i].0),
        pairs_map(pairs)[pairs[i].0] == pairs[i].1,
{
    let k = pairs[i].0;
    assert(pairs_map(pairs).dom().contains(k));
    let j = choose|j: int| 0 <= j < pairs.len() && (#[trigger] pairs[j]).0 == k;
    assert(j == i);
}

/// Entries with their names taken by their characters.
pub open spec fn pairs_of<V>(entries: Seq<(String, V)>) -> Seq<(Seq<char>, V)> {
    entries.map_values(|e: (String, V)| (e.0@, e.1))
}

/// A table from names to values with distinct names.
pub struct SymbolTable<V> {
    entries: Vec<(String, V)>,
}

impl<V> SymbolTable<V> {
    /// The entries, names taken by their characters, in the order kept.
    pub closed spec fn pairs(&self) -> Seq<(Seq<char>, V)> {
        pairs_of(self.entries@)
    }

    /// The table as a map.
    pub open spec fn view(&self) -> Map<Seq<char>, V> {
        pairs_map(self.pairs())
    }

    /// The names in the order kept.
    pub open spec fn key_seq(&self) -> Seq<Seq<char>> {
        self.pairs().map_values(|p: (Seq<char>, V)| p.0)
    }

    /// Names are distinct (kept by every method).
    #[verifier::type_invariant]
    pub open spec fn wf(&self) -> bool {
        keys_distinct(self.pairs())
    }

    /// The names kept are exactly the map's domain.
    pub proof fn lemma_key_seq(&self)
        requires
            self.wf(),
        ensures
            self.view().dom() == self.key_seq().to_set(),
            self.key_seq().no_duplicates(),
            self.key_seq().len() == self.view().dom().len(),
            self.view().dom().finite(),
    {
        let ks = self.key_seq();
        assert(self.view().dom() =~= ks.to_set()) by {
            assert forall|k: Seq<char>| self.view().dom().contains(k) implies ks.to_set().contains(k) by {
                let i = choose|i: int| 0 <= i < self.pairs().len() && (#[trigger] self.pairs()[i]).0 == k;
                assert(ks[i] == k);
            }
            assert forall|k: Seq<char>| ks.to_set().contains(k) implies self.view().dom().contains(k) by {
                let i = choose|i: int| 0 <= i < ks.len() && ks[i] == k;
                assert(self.pairs()[i].0 == k);
            }
        }
        assert(ks.no_duplicates()) by {
            assert forall|i: int, j: int| 0 <= i < ks.len() && 0 <= j < ks.len() && i != j implies ks[i] != ks[j] by {
                assert(ks[i] == self.pairs()[i].0);
                assert(ks[j] == self.pairs()[j].0);
            }
        }
        ks.unique_seq_to_set();
    }

    /// An empty table.
    pub fn new() -> (t: Self)
        ensures
            t@ == Map::<Seq<char>, V>::empty(),
    {
        let t = SymbolTable { entries: Vec::new() };
        assert(t@ =~= Map::<Seq<char>, V>::empty());
        t
    }

    /// Number of entries.
    pub fn len(&self) -> (n: usize)
        ensures
            n == self@.dom().len(),
            n == self.key_seq().len(),
    {
        proof {
            use_type_invariant(self);
            self.lemma_key_seq();
        }
        self.entries.len()
    }

    /// Position of `key` in the table, if present.
    fn index_of(&self, key: &str) -> (r: Option<usize>)
        requires
            self.wf(),
        ensures
            match r {
                Some(i) => i < self.entries.len() && self.pairs()[i as int].0 == key@
                    && self@.dom().contains(key@) && self@[key@] == self.pairs()[i as int].1,
                None => !self@.dom().contains(key@),
            },
    {
        let mut i: usize = 0;
        while i < self.entries.len()
            invariant
                i <= self.entries.len(),
                self.wf(),
                forall|j: int| 0 <= j < i ==> (#[trigger] self.pairs()[j]).0 != key@,
            decreases self.entries.len() - i,
        {
            if str_eq(self.entries[i].0.as_str(), key) {
                proof {
                    lemma_pairs_map_at(self.pairs(), i as int);
                }
                return Some(i);
            }
            i = i + 1;
        }
        None
    }

    /// The value kept for `key`.
    pub fn get(&self, key: &str) -> (r: Option<&V>)
        ensures
            match r {
                Some(v) => self@.dom().contains(key@) && *v == self@[key@],
                None => !self@.dom().contains(key@),
            },
    {
        proof {
            use_type_invariant(self);
        }
        match self.index_of(key) {
            Some(i) => Some(&self.entries[i].1),
            None => None,
        }
    }

    /// The name and value at position `i` (positions follow `key_seq`).
    pub fn entry_at(&self, i: usize) -> (r: (&String, &V))
        requires
            i < self.key_seq().len(),
        ensures
            r.0@ == self.key_seq()[i as int],
            self@.dom().contains(r.0@),
            self@[r.0@] == *r.1,
    {
        proof {
            use_type_invariant(self);
            lemma_pairs_map_at(self.pairs(), i as int);
        }
        (&self.entries[i].0, &self.entries[i].1)
    }

    /// Sets the value for `key`, adding the key if it is new.
    pub fn insert(&mut self, key: String, value: V)
        ensures
            final(self)@ == old(self)@.insert(key@, value),
    {
        proof {
            use_type_invariant(&*self);
        }
        let ghost k = key@;
        let found = self.index_of(key.as_str());
        let mut entries: Vec<(String, V)> = Vec::new();
        std::mem::swap(&mut entries, &mut self.entries);
        match found {
            Some(i) => {
                let ghost before = pairs_of(entries@);
                entries.set(i, (key, value));
                let ghost after = pairs_of(entries@);
                assert(after =~= before.update(i as int, (k, value)));
                assert forall|a: int, b: int|
                    0 <= a < after.len() && 0 <= b < after.len() && a != b implies (#[trigger] after[a]).0
                    != (#[trigger] after[b]).0 by {
                    assert(before[a].0 == after[a].0);
                    assert(before[b].0 == after[b].0);
                }
                self.entries = entries;
                assert(self@ =~= old(self)@.insert(k, value)) by {
                    assert forall|q: Seq<char>| #[trigger] self@.dom().contains(q) == old(self)@.insert(k, value).dom().contains(q) by {
                        if self@.dom().contains(q) {
                            let j = choose|j: int| 0 <= j < after.len() && (#[trigger] after[j]).0 == q;
                            assert(before[j].0 == q);
                        }
                        if old(self)@.dom().contains(q) {
                            let j = choose|j: int| 0 <= j < before.len() && (#[trigger] before[j]).0 == q;
                            assert(after[j].0 == q);
                        }
                    }
                    assert forall|q: Seq<char>| #[trigger] self@.dom().contains(q) implies self@[q] == old(self)@.insert(k, value)[q] by {
                        let j = choose|j: int| 0 <= j < after.len() && (#[trigger] after[j]).0 == q;
                        lemma_pairs_map_at(after, j);
                        if q != k {
                            lemma_pairs_map_at(before, j);
                        }
                    }
                }
            },
            None => {
                let ghost before = pairs_of(entries@);
                entries.push((key, value));
                let ghost after = pairs_of(entries@);
                assert(after =~= before.push((k, value)));
                assert forall|a: int, b: int|
                    0 <= a < after.len() && 0 <= b < after.len() && a != b implies (#[trigger] after[a]).0
                    != (#[trigger] after[b]).0 by {
                    if a < before.len() && b < before.len() {
                        assert(before[a].0 == after[a].0);
                        assert(before[b].0 == after[b].0);
                    } else if a < before.len() {
                        assert(before[a].0 == after[a].0);
                        assert(old(self)@.dom().contains(before[a].0));
                    } else {
                        assert(before[b].0 == after[b].0);
                        assert(old(self)@.dom().contains(before[b].0));
                    }
                }
                self.entries = entries;
                assert(self@ =~= old(self)@.insert(k, value)) by {
                    assert forall|q: Seq<char>| #[trigger] self@.dom().contains(q) == old(self)@.insert(k, value).dom().contains(q) by {
                        if self@.dom().contains(q) && q != k {
                            let j = choose|j: int| 0 <= j < after.len() && (#[trigger] after[j]).0 == q;
                            assert(before[j].0 == q);
                        }
                        if old(self)@.dom().contains(q) {
                            let j = choose|j: int| 0 <= j < before.len() && (#[trigger] before[j]).0 == q;
                            assert(after[j].0 == q);
                        }
                        if q == k {
                            assert(after[before.len() as int].0 == q);
                        }
                    }
                    assert forall|q: Seq<char>| #[trigger] self@.dom().contains(q) implies self@[q] == old(self)@.insert(k, value)[q] by {
                        let j = choose|j: int| 0 <= j < after.len() && (#[trigger] after[j]).0 == q;
                        lemma_pairs_map_at(after, j);
                        if q != k {
                            lemma_pairs_map_at(before, j);
                        }
                    }
                }
            },
        }
    }

    /// Removes `key`, giving back its value if it was present.
    pub fn remove(&mut self, key: &str) -> (r: Option<V>)
        ensures
            final(self)@ == old(self)@.remove(key@),
            match r {
                Some(v) => old(self)@.dom().contains(key@) && v == old(self)@[key@],
                None => !old(self)@.dom().contains(key@),
            },
    {
        proof {
            use_type_invariant(&*self);
        }
        match self.index_of(key) {
            Some(i) => {
                let mut entries: Vec<(String, V)> = Vec::new();
                std::mem::swap(&mut entries, &mut self.entries);
                let ghost before = pairs_of(entries@);
                let e = entries.remove(i);
                let ghost after = pairs_of(entries@);
                assert(after =~= before.remove(i as int));
                assert forall|a: int, b: int|
                    0 <= a < after.len() && 0 <= b < after.len() && a != b implies (#[trigger] after[a]).0
                    != (#[trigger] after[b]).0 by {
                    let a0 = if a < i { a } else { a + 1 };
                    let b0 = if b < i { b } else { b + 1 };
                    assert(after[a] == before[a0]);
                    assert(after[b] == before[b0]);
                }
                self.entries = entries;
                assert(self@ =~= old(self)@.remove(key@)) by {
                    assert forall|q: Seq<char>| #[trigger] self@.dom().contains(q) == old(self)@.remove(key@).dom().contains(q) by {
                        if self@.dom().contains(q) {
                            let j = choose|j: int| 0 <= j < after.len() && (#[trigger] after[j]).0 == q;
                            let j0 = if j < i { j } else { j + 1 };
                            assert(after[j] == before[j0]);
                            assert(j0 != i);
                        }
                        if old(self)@.dom().contains(q) && q != key@ {
                            let j = choose|j: int| 0 <= j < before.len() && (#[trigger] before[j]).0 == q;
                            assert(j != i);
                            let j1 = if j < i { j } else { j - 1 };
                            assert(after[j1] == before[j]);
                        }
                    }
                    assert forall|q: Seq<char>| #[trigger] self@.dom().contains(q) implies self@[q] == old(self)@.remove(key@)[q] by {
                        let j = choose|j: int| 0 <= j < after.len() && (#[trigger] after[j]).0 == q;
                        let j0 = if j < i { j } else { j + 1 };
                        assert(after[j] == before[j0]);
                        lemma_pairs_map_at(after, j);
                        lemma_pairs_map_at(before, j0);
                    }
                }
                Some(e.1)
            },
            None => {
                assert(self@ =~= old(self)@.remove(key@));
                None
            },
        }
    }
}

impl<V: Copy> SymbolTable<V> {
    /// The value kept for `key`, copied out.
    pub fn get_copy(&self, key: &str) -> (r: Option<V>)
        ensures
            r == lookup(self@, key@),
    {
        match self.get(key) {
            Some(v) => Some(*v),
            None => None,
        }
    }
}

impl<V> SymbolTable<V> {
    /// The names in the order kept, as strings.
    pub fn names(&self) -> (r: Vec<String>)
        ensures
            r@.map_values(|s: String| s@) == self.key_seq(),
    {
        let mut r: Vec<String> = Vec::new();
        let mut i: usize = 0;
        while i < self.entries.len()
            invariant
                i <= self.entries.len(),
                r@.map_values(|s: String| s@) == self.key_seq().take(i as int),
            decreases self.entries.len() - i,
        {
            let name = self.entries[i].0.clone();
            let ghost before = r@;
            r.push(name);
            assert(self.key_seq()[i as int] == self.pairs()[i as int].0);
            assert(self.pairs()[i as int].0 == self.entries@[i as int].0@);
            assert(r@.map_values(|s: String| s@) =~= before.map_values(|s: String| s@).push(name@));
            assert(r@.map_values(|s: String| s@) =~= self.key_seq().take(i + 1));
            i = i + 1;
        }
        assert(self.key_seq().take(i as int) =~= self.key_seq());
        r
    }
}

} // verus!
