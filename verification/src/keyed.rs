//! A small map from strings to values kept as a vector of distinct keys in insertion order: the
//! stores' tables.
use vstd::prelude::*;
use crate::text::text_eq;

verus! {

/// Entries keyed by distinct strings.
pub struct KeyedVec<V> {
    items: Vec<(String, V)>,
}

/// The map that the first `n` pairs make up, a later pair for a key replacing an earlier one.
pub open spec fn pairs_map<V>(pairs: Seq<(String, V)>, n: int) -> Map<Seq<char>, V>
    decreases n,
{
    if n <= 0 || n > pairs.len() {
        Map::empty()
    } else {
        pairs_map(pairs, n - 1).insert(pairs[n - 1].0@, pairs[n - 1].1)
    }
}

impl<V> KeyedVec<V> {
    /// No key occurs twice.
    pub closed spec fn wf(&self) -> bool {
        forall|i: int, j: int|
            0 <= i < self.items@.len() && 0 <= j < self.items@.len() && i != j ==> #[trigger] self.items@[i].0@
                != #[trigger] self.items@[j].0@
    }

    /// The entries, in insertion order.
    pub closed spec fn entries(&self) -> Seq<(String, V)> {
        self.items@
    }

    /// The map that the entries make up.
    pub open spec fn view(&self) -> Map<Seq<char>, V> {
        Map::new(
            |k: Seq<char>| exists|i: int| 0 <= i < self.entries().len() && self.entries()[i].0@ == k,
            |k: Seq<char>| self.entries()[choose|i: int| 0 <= i < self.entries().len() && self.entries()[i].0@ == k].1,
        )
    }

    /// Under distinct keys, each entry is the map's value for its key.
    pub proof fn lemma_entry_in_view(&self, i: int)
        requires
            self.wf(),
            0 <= i < self.entries().len(),
        ensures
            self@.contains_key(self.entries()[i].0@),
            self@[self.entries()[i].0@] == self.entries()[i].1,
    {
        let k = self.entries()[i].0@;
        assert(self@.dom().contains(k));
        let j = choose|j: int| 0 <= j < self.entries().len() && self.entries()[j].0@ == k;
        if j != i {
            assert(self.items@[i].0@ != self.items@[j].0@);
        }
    }

    /// The entries, taken as pairs in order, make up the table.
    pub proof fn lemma_pairs_map_of_entries(&self)
        requires
            self.wf(),
        ensures
            pairs_map(self.entries(), self.entries().len() as int) == self@,
    {
        self.lemma_pairs_prefix(self.entries().len() as int);
        let n = self.entries().len() as int;
        assert forall|k: Seq<char>| self@.contains_key(k) implies #[trigger] pairs_map(self.entries(), n).contains_key(k) by {
            let j = choose|j: int| 0 <= j < self.entries().len() && self.entries()[j].0@ == k;
            assert(0 <= j < n && self.entries()[j].0@ == k);
        }
        assert(pairs_map(self.entries(), n) =~= self@);
    }

    proof fn lemma_pairs_prefix(&self, n: int)
        requires
            self.wf(),
            0 <= n <= self.entries().len(),
        ensures
            forall|k: Seq<char>| #[trigger] pairs_map(self.entries(), n).contains_key(k)
                <==> exists|j: int| 0 <= j < n && self.entries()[j].0@ == k,
            forall|k: Seq<char>| #[trigger] pairs_map(self.entries(), n).contains_key(k)
                ==> self@.contains_key(k) && pairs_map(self.entries(), n)[k] == self@[k],
        decreases n,
    {
        if n > 0 {
            self.lemma_pairs_prefix(n - 1);
            let e = self.entries()[n - 1];
            self.lemma_entry_in_view(n - 1);
            let prev = pairs_map(self.entries(), n - 1);
            let cur = pairs_map(self.entries(), n);
            assert(cur == prev.insert(e.0@, e.1));
            assert forall|k: Seq<char>| #[trigger] cur.contains_key(k)
                <==> exists|j: int| 0 <= j < n && self.entries()[j].0@ == k by {
                if k != e.0@ {
                    if exists|j: int| 0 <= j < n && self.entries()[j].0@ == k {
                        let j = choose|j: int| 0 <= j < n && self.entries()[j].0@ == k;
                        assert(j != n - 1);
                        assert(prev.contains_key(k));
                    }
                } else {
                    assert(self.entries()[n - 1].0@ == k);
                }
            }
            assert forall|k: Seq<char>| #[trigger] cur.contains_key(k)
                implies self@.contains_key(k) && cur[k] == self@[k] by {
                if k != e.0@ {
                    assert(prev.contains_key(k));
                }
            }
        }
    }

    /// Distinct entries have distinct keys.
    pub proof fn lemma_distinct_keys(&self, i: int, j: int)
        requires
            self.wf(),
            0 <= i < self.entries().len(),
            0 <= j < self.entries().len(),
            i != j,
        ensures
            self.entries()[i].0@ != self.entries()[j].0@,
    {
        assert(self.items@[i].0@ != self.items@[j].0@);
    }

    /// Under distinct keys, the map has one key per entry.
    pub proof fn lemma_len_is_dom_len(&self)
        requires
            self.wf(),
        ensures
            self@.dom().finite(),
            self@.dom().len() == self.entries().len(),
    {
        let ks = self.entries().map_values(|e: (String, V)| e.0@);
        assert forall|i: int, j: int| 0 <= i < ks.len() && 0 <= j < ks.len() && i != j implies ks[i] != ks[j] by {
            assert(self.items@[i].0@ != self.items@[j].0@);
        }
        assert(ks.no_duplicates());
        ks.unique_seq_to_set();
        assert forall|k: Seq<char>| self@.dom().contains(k) <==> ks.to_set().contains(k) by {
            if self@.dom().contains(k) {
                let i = choose|i: int| 0 <= i < self.entries().len() && self.entries()[i].0@ == k;
                assert(ks[i] == k);
            }
            if ks.to_set().contains(k) {
                let i = choose|i: int| 0 <= i < ks.len() && ks[i] == k;
                assert(self.entries()[i].0@ == k);
            }
        }
        assert(self@.dom() =~= ks.to_set());
    }

    /// An empty table.
    pub fn new() -> (r: Self)
        ensures
            r.wf(),
            r@ == Map::<Seq<char>, V>::empty(),
            r.entries().len() == 0,
    {
        let r = KeyedVec { items: Vec::new() };
        assert(r@ =~= Map::<Seq<char>, V>::empty());
        r
    }

    /// Number of entries.
    pub fn len(&self) -> (r: usize)
        ensures
            r == self.entries().len(),
    {
        self.items.len()
    }

    /// The key and value of entry `i`.
    pub fn entry_at(&self, i: usize) -> (r: (&String, &V))
        requires
            i < self.entries().len(),
        ensures
            *r.0 == self.entries()[i as int].0,
            *r.1 == self.entries()[i as int].1,
    {
        let e = &self.items[i];
        (&e.0, &e.1)
    }

    /// Position of `key`, if present.
    pub fn position(&self, key: &str) -> (r: Option<usize>)
        requires
            self.wf(),
        ensures
            match r {
                Some(i) => i < self.entries().len() && self.entries()[i as int].0@ == key@,
                None => !self@.contains_key(key@),
            },
    {
        let mut i: usize = 0;
        while i < self.items.len()
            invariant
                i <= self.items@.len(),
                forall|j: int| 0 <= j < i ==> self.items@[j].0@ != key@,
            decreases self.items@.len() - i,
        {
            if text_eq(self.items[i].0.as_str(), key) {
                return Some(i);
            }
            i = i + 1;
        }
        None
    }

    /// The value under `key`.
    pub fn get(&self, key: &str) -> (r: Option<&V>)
        requires
            self.wf(),
        ensures
            match r {
                Some(v) => self@.contains_key(key@) && self@[key@] == *v,
                None => !self@.contains_key(key@),
            },
    {
        match self.position(key) {
            Some(i) => {
                proof {
                    self.lemma_entry_in_view(i as int);
                }
                Some(&self.items[i].1)
            },
            None => None,
        }
    }

    /// The value under `key`, to change in place.
    pub fn get_mut(&mut self, key: &str) -> (r: Option<&mut V>)
        requires
            old(self).wf(),
        ensures
            match r {
                Some(v) => exists|i: int| 0 <= i < old(self).entries().len()
                    && old(self).entries()[i].0@ == key@
                    && *v == old(self).entries()[i].1
                    && old(self)@.contains_key(key@)
                    && *v == old(self)@[key@]
                    && final(self).entries() == old(self).entries().update(i, (old(self).entries()[i].0, *final(v)))
                    && final(self).wf()
                    && final(self)@ == old(self)@.insert(key@, *final(v)),
                None => !old(self)@.contains_key(key@) && *final(self) == *old(self),
            },
    {
        match self.position(key) {
            Some(i) => {
                proof {
                    self.lemma_entry_in_view(i as int);
                }
                let v = &mut self.items[i].1;
                proof {
                    Self::lemma_value_update(*old(self), after_borrow(*self), i as int, *final(v));
                }
                Some(v)
            },
            None => None,
        }
    }

    /// Replacing the value of entry `i` keeps the keys distinct and sets the map's value for
    /// that entry's key.
    pub proof fn lemma_value_update(before: Self, after: Self, i: int, v: V)
        requires
            before.wf(),
            0 <= i < before.entries().len(),
            after.entries() == before.entries().update(i, (before.entries()[i].0, v)),
        ensures
            after.wf(),
            after@ == before@.insert(before.entries()[i].0@, v),
    {
        assert forall|a: int, b: int| 0 <= a < after.items@.len() && 0 <= b < after.items@.len() && a != b
            implies #[trigger] after.items@[a].0@ != #[trigger] after.items@[b].0@ by {
            assert(before.items@[a].0@ != before.items@[b].0@);
        }
        let k = before.entries()[i].0@;
        assert forall|key: Seq<char>| #[trigger] after@.contains_key(key) <==> before@.insert(k, v).contains_key(key) by {
            if after@.contains_key(key) {
                let j = choose|j: int| 0 <= j < after.entries().len() && after.entries()[j].0@ == key;
                assert(before.entries()[j].0@ == key);
            }
            if before@.contains_key(key) {
                let j = choose|j: int| 0 <= j < before.entries().len() && before.entries()[j].0@ == key;
                assert(after.entries()[j].0@ == key);
            }
            if key == k {
                assert(after.entries()[i].0@ == key);
            }
        }
        assert forall|key: Seq<char>| after@.contains_key(key) implies #[trigger] after@[key] == before@.insert(k, v)[key] by {
            let j = choose|j: int| 0 <= j < after.entries().len() && after.entries()[j].0@ == key;
            after.lemma_entry_in_view(j);
            if j != i {
                before.lemma_entry_in_view(j);
            }
        }
        assert(after@ =~= before@.insert(k, v));
    }

    /// The table of the pairs, a later pair for a key replacing an earlier one.
    pub fn from_pairs(pairs: Vec<(String, V)>) -> (r: Self)
        ensures
            r.wf(),
            r@ == pairs_map(pairs@, pairs@.len() as int),
    {
        let mut pairs = pairs;
        let ghost all = pairs@;
        let mut stack: Vec<(String, V)> = Vec::new();
        while pairs.len() > 0
            invariant
                stack@.len() + pairs@.len() == all.len(),
                pairs@ == all.take(pairs@.len() as int),
                forall|t: int| 0 <= t < stack@.len() ==> stack@[t] == all[all.len() - 1 - t],
            decreases pairs@.len(),
        {
            let e = pairs.pop().unwrap();
            stack.push(e);
        }
        let mut r = Self::new();
        let mut i: usize = 0;
        let n = stack.len();
        while stack.len() > 0
            invariant
                n == all.len(),
                stack@.len() + i == n,
                forall|t: int| 0 <= t < stack@.len() ==> stack@[t] == all[all.len() - 1 - t],
                r.wf(),
                r@ == pairs_map(all, i as int),
            decreases stack@.len(),
        {
            let (k, v) = stack.pop().unwrap();
            assert(k == all[i as int].0 && v == all[i as int].1);
            r.insert(k, v);
            i = i + 1;
        }
        r
    }

    /// Sets the value under `key`, replacing any earlier value.
    pub fn insert(&mut self, key: String, value: V)
        requires
            old(self).wf(),
        ensures
            final(self).wf(),
            final(self)@ == old(self)@.insert(key@, value),
    {
        let ghost k = key@;
        let ghost v = value;
        match self.position(key.as_str()) {
            Some(i) => {
                let ghost before = self.items@;
                self.items.set(i, (key, value));
                proof {
                    assert(self.items@ == before.update(i as int, (self.items@[i as int].0, v)));
                    assert forall|a: int, b: int|
                        0 <= a < self.items@.len() && 0 <= b < self.items@.len() && a != b implies #[trigger] self.items@[a].0@
                            != #[trigger] self.items@[b].0@ by {
                        assert(before[a].0@ != before[b].0@ || a == b);
                    }
                    assert forall|key2: Seq<char>| #![auto] self@.contains_key(key2) == old(self)@.insert(k, v).contains_key(key2) by {
                        if key2 == k {
                            assert(self.items@[i as int].0@ == k);
                        } else if old(self)@.contains_key(key2) {
                            let j = choose|j: int| 0 <= j < before.len() && before[j].0@ == key2;
                            assert(self.items@[j].0@ == key2);
                        } else if self@.contains_key(key2) {
                            let j = choose|j: int| 0 <= j < self.items@.len() && self.items@[j].0@ == key2;
                            assert(before[j].0@ == key2);
                        }
                    }
                    assert forall|key2: Seq<char>| #![auto] self@.contains_key(key2) implies self@[key2] == old(self)@.insert(k, v)[key2] by {
                        let j = choose|j: int| 0 <= j < self.items@.len() && self.items@[j].0@ == key2;
                        self.lemma_entry_in_view(j);
                        if j == i {
                        } else {
                            old(self).lemma_entry_in_view(j);
                        }
                    }
                    assert(self@ =~= old(self)@.insert(k, v));
                }
            },
            None => {
                let ghost before = self.items@;
                self.items.push((key, value));
                proof {
                    let n = before.len() as int;
                    assert forall|a: int, b: int|
                        0 <= a < self.items@.len() && 0 <= b < self.items@.len() && a != b implies #[trigger] self.items@[a].0@
                            != #[trigger] self.items@[b].0@ by {
                        if a == n {
                            assert(!old(self)@.contains_key(k));
                            assert(self.items@[b] == before[b]);
                        } else if b == n {
                            assert(!old(self)@.contains_key(k));
                            assert(self.items@[a] == before[a]);
                        } else {
                            assert(before[a].0@ != before[b].0@);
                        }
                    }
                    assert forall|key2: Seq<char>| #![auto] self@.contains_key(key2) == old(self)@.insert(k, v).contains_key(key2) by {
                        if key2 == k {
                            assert(self.items@[n].0@ == k);
                        } else if old(self)@.contains_key(key2) {
                            let j = choose|j: int| 0 <= j < before.len() && before[j].0@ == key2;
                            assert(self.items@[j].0@ == key2);
                        } else if self@.contains_key(key2) {
                            let j = choose|j: int| 0 <= j < self.items@.len() && self.items@[j].0@ == key2;
                            assert(j != n);
                            assert(before[j].0@ == key2);
                        }
                    }
                    assert forall|key2: Seq<char>| #![auto] self@.contains_key(key2) implies self@[key2] == old(self)@.insert(k, v)[key2] by {
                        let j = choose|j: int| 0 <= j < self.items@.len() && self.items@[j].0@ == key2;
                        self.lemma_entry_in_view(j);
                        if j == n {
                        } else {
                            assert(self.items@[j] == before[j]);
                            old(self).lemma_entry_in_view(j);
                        }
                    }
                    assert(self@ =~= old(self)@.insert(k, v));
                }
            },
        }
    }

    /// Removes the entry under `key`; returns whether there was one.
    pub fn remove(&mut self, key: &str) -> (r: bool)
        requires
            old(self).wf(),
        ensures
            final(self).wf(),
            final(self)@ == old(self)@.remove(key@),
            r == old(self)@.contains_key(key@),
    {
        self.take(key).is_some()
    }

    /// Removes the entry under `key` and hands back its value.
    pub fn take(&mut self, key: &str) -> (r: Option<V>)
        requires
            old(self).wf(),
        ensures
            final(self).wf(),
            final(self)@ == old(self)@.remove(key@),
            match r {
                Some(v) => old(self)@.contains_key(key@) && old(self)@[key@] == v,
                None => !old(self)@.contains_key(key@),
            },
    {
        match self.position(key) {
            Some(i) => {
                let ghost before = self.items@;
                let (_, value) = self.items.remove(i);
                proof {
                    let k = key@;
                    old(self).lemma_entry_in_view(i as int);
                    assert forall|a: int| 0 <= a < self.items@.len() implies #[trigger] self.items@[a] == if a < i {
                        before[a]
                    } else {
                        before[a + 1]
                    } by {}
                    assert forall|a: int, b: int|
                        0 <= a < self.items@.len() && 0 <= b < self.items@.len() && a != b implies #[trigger] self.items@[a].0@
                            != #[trigger] self.items@[b].0@ by {
                        let a2 = if a < i { a } else { a + 1 };
                        let b2 = if b < i { b } else { b + 1 };
                        assert(before[a2].0@ != before[b2].0@);
                    }
                    assert forall|key2: Seq<char>| #![auto] self@.contains_key(key2) == old(self)@.remove(k).contains_key(key2) by {
                        if self@.contains_key(key2) {
                            let j = choose|j: int| 0 <= j < self.items@.len() && self.items@[j].0@ == key2;
                            let j2 = if j < i { j } else { j + 1 };
                            assert(before[j2].0@ == key2);
                            assert(j2 != i as int);
                            assert(before[i as int].0@ != key2);
                        } else if old(self)@.contains_key(key2) && key2 != k {
                            let j = choose|j: int| 0 <= j < before.len() && before[j].0@ == key2;
                            assert(j != i as int);
                            let j1 = if j < i { j } else { j - 1 };
                            assert(self.items@[j1].0@ == key2);
                        }
                    }
                    assert forall|key2: Seq<char>| #![auto] self@.contains_key(key2) implies self@[key2] == old(self)@.remove(k)[key2] by {
                        let j = choose|j: int| 0 <= j < self.items@.len() && self.items@[j].0@ == key2;
                        self.lemma_entry_in_view(j);
                        let j2 = if j < i { j } else { j + 1 };
                        old(self).lemma_entry_in_view(j2);
                    }
                    assert(self@ =~= old(self)@.remove(k));
                }
                Some(value)
            },
            None => {
                assert(self@ =~= old(self)@.remove(key@));
                None
            },
        }
    }

    /// Removes the entries under each of `keys`.
    pub fn remove_all(&mut self, keys: &Vec<String>)
        requires
            old(self).wf(),
        ensures
            final(self).wf(),
            final(self)@ == old(self)@.remove_keys(keys@.map_values(|s: String| s@).to_set()),
    {
        let mut j: usize = 0;
        while j < keys.len()
            invariant
                j <= keys@.len(),
                self.wf(),
                self@ == old(self)@.remove_keys(keys@.take(j as int).map_values(|s: String| s@).to_set()),
            decreases keys@.len() - j,
        {
            let ghost before = self@;
            self.remove(keys[j].as_str());
            proof {
                let s1 = keys@.take(j as int).map_values(|s: String| s@).to_set();
                let s2 = keys@.take(j + 1).map_values(|s: String| s@).to_set();
                assert(keys@.take(j + 1).map_values(|s: String| s@) =~= keys@.take(j as int).map_values(|s: String| s@).push(keys@[j as int]@));
                keys@.take(j as int).map_values(|s: String| s@).lemma_push_to_set_commute(keys@[j as int]@);
                assert(s2 =~= s1.insert(keys@[j as int]@));
                assert(self@ =~= old(self)@.remove_keys(s2));
            }
            j = j + 1;
        }
        assert(keys@.take(j as int) =~= keys@);
    }
}

} // verus!
