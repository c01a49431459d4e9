//! A small persistent-map model: an association list from string keys to
//! values, with unique keys. It stands for one keyed collection of the
//! host's storage; its abstract value is a finite map from key characters
//! to the deep view of the stored value.

use vstd::prelude::*;

verus! {

/// A keyed collection with unique string keys.
pub struct StoreMap<T> {
    entries: Vec<(String, T)>,
}

impl<T: DeepView> StoreMap<T> {
    /// The key of the entry at position `i`, as a character sequence.
    pub closed spec fn key_at(&self, i: int) -> Seq<char> {
        self.entries@[i].0@
    }

    /// The abstract value of the entry at position `i`.
    pub closed spec fn val_at(&self, i: int) -> T::V {
        self.entries@[i].1.deep_view()
    }

    /// How many keys the store holds.
    pub closed spec fn num_entries(&self) -> nat {
        self.entries@.len()
    }

    /// Well-formed: no two entries share a key.
    pub closed spec fn wf(&self) -> bool {
        forall|i: int, j: int|
            0 <= i < j < self.entries@.len() ==> self.key_at(i) != self.key_at(j)
    }

    /// Whether some entry has key `k`.
    pub closed spec fn spec_has(&self, k: Seq<char>) -> bool {
        exists|i: int| 0 <= i < self.entries@.len() && self.key_at(i) == k
    }

    /// The position of the entry with key `k`, if any.
    spec fn idx_of(&self, k: Seq<char>) -> int {
        choose|i: int| 0 <= i < self.entries@.len() && self.key_at(i) == k
    }

    /// The abstract value: a finite map from key characters to the deep
    /// view of the stored value.
    pub closed spec fn view(&self) -> Map<Seq<char>, T::V> {
        Map::new(|k: Seq<char>| self.spec_has(k), |k: Seq<char>| self.val_at(self.idx_of(k)))
    }

    /// In a well-formed store, an entry with key `k` at position `i` is the
    /// entry the abstract map associates with `k`.
    proof fn lemma_entry_determines_map(&self, i: int)
        requires
            self.wf(),
            0 <= i < self.entries@.len(),
        ensures
            self.idx_of(self.key_at(i)) == i,
            self@.contains_key(self.key_at(i)),
            self@[self.key_at(i)] == self.val_at(i),
    {
        let k = self.key_at(i);
        assert(self.spec_has(k));
        let j: int = self.idx_of(k);
        assert(0 <= j < self.entries@.len() && self.key_at(j) == k);
        if i != j {
            assert(self.key_at(i) != self.key_at(j));
        }
    }

    /// An empty store.
    pub fn new() -> (s: Self)
        ensures
            s.wf(),
            s@ == Map::<Seq<char>, T::V>::empty(),
            s.num_entries() == 0,
    {
        let s = StoreMap { entries: Vec::new() };
        proof {
            assert(s@ =~= Map::<Seq<char>, T::V>::empty());
        }
        s
    }

    /// The position of the entry with key `key`, if any.
    fn index_of(&self, key: &String) -> (r: Option<usize>)
        ensures
            match r {
                Some(i) => i < self.entries@.len() && self.key_at(i as int) == key@,
                None => !self.spec_has(key@),
            },
    {
        let n: usize = self.entries.len();
        let mut i: usize = 0;
        while i < n
            invariant
                n == self.entries@.len(),
                i <= n,
                forall|j: int| 0 <= j < i ==> self.key_at(j) != key@,
            decreases n - i,
        {
            if self.entries[i].0 == *key {
                return Some(i);
            }
            i += 1;
        }
        None
    }

    /// Whether the store holds key `key`.
    pub fn contains(&self, key: &String) -> (r: bool)
        requires
            self.wf(),
        ensures
            r == self@.contains_key(key@),
    {
        proof {
            if self.spec_has(key@) {
                self.lemma_entry_determines_map(self.idx_of(key@));
            }
        }
        self.index_of(key).is_some()
    }

    /// A borrow of the value under `key`, if any; the `may_load` of the
    /// host's keyed storage.
    pub fn may_load(&self, key: &String) -> (r: Option<&T>)
        requires
            self.wf(),
        ensures
            match r {
                Some(v) => self@.contains_key(key@) && v.deep_view() == self@[key@],
                None => !self@.contains_key(key@),
            },
    {
        match self.index_of(key) {
            Some(i) => {
                proof {
                    self.lemma_entry_determines_map(i as int);
                }
                Some(&self.entries[i].1)
            },
            None => None,
        }
    }

    /// The entry at position `i` is the one the abstract map associates
    /// with its key.
    pub proof fn lemma_entry_in_map(&self, i: int)
        requires
            self.wf(),
            0 <= i < self.num_entries(),
        ensures
            self@.contains_key(self.key_at(i)),
            self@[self.key_at(i)] == self.val_at(i),
    {
        self.lemma_entry_determines_map(i);
    }

    /// In a well-formed store no two entries share a key.
    pub proof fn lemma_keys_distinct(&self, i: int, j: int)
        requires
            self.wf(),
            0 <= i < j < self.num_entries(),
        ensures
            self.key_at(i) != self.key_at(j),
    {
    }

    /// A key of the abstract map is the key of some entry.
    pub proof fn lemma_map_key_has_index(&self, k: Seq<char>)
        requires
            self@.contains_key(k),
        ensures
            exists|i: int| 0 <= i < self.num_entries() && self.key_at(i) == k,
    {
        assert(self.spec_has(k));
    }

    /// The keys of the store, in entry order.
    pub fn key_list(&self) -> (r: Vec<String>)
        ensures
            r@.len() == self.num_entries(),
            forall|i: int| 0 <= i < r@.len() ==> r@[i]@ == self.key_at(i),
    {
        let n: usize = self.entries.len();
        let mut r: Vec<String> = Vec::new();
        let mut i: usize = 0;
        while i < n
            invariant
                n == self.entries@.len(),
                i <= n,
                r@.len() == i,
                forall|j: int| 0 <= j < i ==> r@[j]@ == self.key_at(j),
            decreases n - i,
        {
            r.push(self.entries[i].0.clone());
            i += 1;
        }
        r
    }

    /// Removes and returns the value under `key`, if any.
    pub fn take(&mut self, key: &String) -> (r: Option<T>)
        requires
            old(self).wf(),
        ensures
            final(self).wf(),
            match r {
                Some(v) => old(self)@.contains_key(key@)
                    && v.deep_view() == old(self)@[key@]
                    && final(self)@ == old(self)@.remove(key@)
                    && final(self).num_entries() == old(self).num_entries() - 1,
                None => !old(self)@.contains_key(key@) && *final(self) == *old(self),
            },
    {
        match self.index_of(key) {
            Some(i) => {
                proof {
                    self.lemma_entry_determines_map(i as int);
                }
                let ghost pre = *self;
                let (_k, v) = self.entries.swap_remove(i);
                proof {
                    self.lemma_take_shape(pre, i as int, key@);
                }
                Some(v)
            },
            None => {
                proof {
                    if self@.contains_key(key@) {
                        assert(self.spec_has(key@));
                    }
                }
                None
            },
        }
    }

    /// After `swap_remove` of the entry with key `k` at position `i`, the
    /// abstract map has lost exactly `k`.
    proof fn lemma_take_shape(&self, pre: Self, i: int, k: Seq<char>)
        requires
            pre.wf(),
            0 <= i < pre.entries@.len(),
            pre.key_at(i) == k,
            self.entries@ == pre.entries@.update(i, pre.entries@.last()).drop_last(),
        ensures
            self.wf(),
            self@ == pre@.remove(k),
    {
        let n: nat = pre.entries@.len();
        assert forall|a: int| 0 <= a < n - 1 implies #[trigger] self.entries@[a]
            == if a == i { pre.entries@[n - 1] } else { pre.entries@[a] } by {}
        assert forall|a: int, b: int|
            0 <= a < b < self.entries@.len() implies self.key_at(a) != self.key_at(b) by {
            let pa: int = if a == i { n - 1 } else { a };
            let pb: int = if b == i { n - 1 } else { b };
            assert(self.key_at(a) == pre.key_at(pa));
            assert(self.key_at(b) == pre.key_at(pb));
        }
        assert forall|k2: Seq<char>| #[trigger] self@.contains_key(k2)
            == pre@.remove(k).contains_key(k2) && (self@.contains_key(k2)
            ==> self@[k2] == pre@.remove(k)[k2]) by {
            if self.spec_has(k2) {
                let a: int = self.idx_of(k2);
                self.lemma_entry_determines_map(a);
                let pa: int = if a == i { n - 1 } else { a };
                assert(self.key_at(a) == pre.key_at(pa));
                assert(self.val_at(a) == pre.val_at(pa));
                pre.lemma_entry_determines_map(pa);
                assert(pa != i);
                assert(k2 != k);
            } else {
                if pre.spec_has(k2) && k2 != k {
                    let pa: int = pre.idx_of(k2);
                    pre.lemma_entry_determines_map(pa);
                    assert(pa != i);
                    let a: int = if pa == n - 1 { i } else { pa };
                    if a < n - 1 {
                        assert(self.key_at(a) == pre.key_at(pa));
                        assert(self.spec_has(k2));
                    }
                }
            }
        }
        assert(self@ =~= pre@.remove(k));
    }

    /// Stores `value` under `key`, replacing any previous value; the `save`
    /// of the host's keyed storage.
    pub fn save(&mut self, key: &String, value: T)
        requires
            old(self).wf(),
        ensures
            final(self).wf(),
            final(self)@ == old(self)@.insert(key@, value.deep_view()),
            final(self).num_entries() == old(self).num_entries()
                + if old(self)@.contains_key(key@) { 0int } else { 1int },
    {
        let _previous = self.take(key);
        let ghost pre = *self;
        let key_copy = key.clone();
        let ghost entry = (key_copy, value);
        self.entries.push((key_copy, value));
        proof {
            let n: nat = pre.entries@.len();
            assert(self.entries@ == pre.entries@.push(entry));
            assert(self.key_at(n as int) == key@);
            assert(!pre@.contains_key(key@));
            assert(!pre.spec_has(key@)) by {
                if pre.spec_has(key@) {
                    pre.lemma_entry_determines_map(pre.idx_of(key@));
                }
            }
            assert forall|a: int, b: int|
                0 <= a < b < self.entries@.len() implies self.key_at(a) != self.key_at(b) by {
                if b < n {
                    assert(self.key_at(a) == pre.key_at(a));
                    assert(self.key_at(b) == pre.key_at(b));
                } else {
                    assert(self.key_at(a) == pre.key_at(a));
                    assert(!pre.spec_has(key@));
                }
            }
            assert forall|k2: Seq<char>| #[trigger] self@.contains_key(k2)
                == pre@.insert(key@, value.deep_view()).contains_key(k2)
                && (self@.contains_key(k2)
                    ==> self@[k2] == pre@.insert(key@, value.deep_view())[k2]) by {
                if k2 == key@ {
                    self.lemma_entry_determines_map(n as int);
                } else {
                    if self.spec_has(k2) {
                        let a: int = self.idx_of(k2);
                        self.lemma_entry_determines_map(a);
                        assert(a != n);
                        assert(pre.key_at(a) == k2);
                        pre.lemma_entry_determines_map(a);
                    }
                    if pre.spec_has(k2) {
                        let a: int = pre.idx_of(k2);
                        pre.lemma_entry_determines_map(a);
                        assert(self.key_at(a) == k2);
                        self.lemma_entry_determines_map(a);
                    }
                }
            }
            assert(self@ =~= pre@.insert(key@, value.deep_view()));
            assert(self@ =~= old(self)@.insert(key@, value.deep_view()));
        }
    }

    /// How many keys the store holds.
    pub fn num_keys(&self) -> (n: usize)
        ensures
            n == self.num_entries(),
    {
        self.entries.len()
    }
}

} // verus!
