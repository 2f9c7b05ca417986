//! A map that keeps its entries in the order of their keys.
use vstd::prelude::*;

verus! {

/// A key that is ordered by a number.
pub trait MapKey: Sized + Copy {
    /// The number that orders the key.
    spec fn rank(self) -> int;

    /// No two keys have the same number.
    proof fn rank_is_unique(a: Self, b: Self)
        requires
            a.rank() == b.rank(),
        ensures
            a == b,
    ;

    /// Whether this key comes before another.
    fn precedes(&self, other: &Self) -> (r: bool)
        ensures
            r == (self.rank() < other.rank()),
    ;
}

/// The keys come in strictly ascending order.
pub open spec fn ascending<K: MapKey, V>(entries: Seq<(K, V)>) -> bool {
    forall|i: int, j: int|
        0 <= i < j < entries.len() ==> (#[trigger] entries[i]).0.rank() < (
        #[trigger] entries[j]).0.rank()
}

/// Whether there is an entry for the key.
pub open spec fn has_key<K: MapKey, V>(entries: Seq<(K, V)>, key: K) -> bool {
    exists|i: int| 0 <= i < entries.len() && (#[trigger] entries[i]).0 == key
}

/// Where the entry for the key stands.
pub open spec fn key_index<K: MapKey, V>(entries: Seq<(K, V)>, key: K) -> int {
    choose|i: int| 0 <= i < entries.len() && (#[trigger] entries[i]).0 == key
}

/// A map from keys to values, as a list of entries in ascending order.
pub struct OrderedMap<K: MapKey, V> {
    pub entries: Vec<(K, V)>,
}

impl<K: MapKey, V> View for OrderedMap<K, V> {
    type V = Map<K, V>;

    open spec fn view(&self) -> Map<K, V> {
        Map::new(
            |k: K| has_key(self.entries@, k),
            |k: K| self.entries@[key_index(self.entries@, k)].1,
        )
    }
}

impl<K: MapKey, V> OrderedMap<K, V> {
    /// The entries are in ascending order.
    pub open spec fn wf(self) -> bool {
        ascending(self.entries@)
    }

    /// An empty map.
    pub fn new() -> (r: Self)
        ensures
            r.wf(),
            r@ == Map::<K, V>::empty(),
            r.entries@.len() == 0,
    {
        let r = OrderedMap { entries: Vec::new() };
        assert(r@ =~= Map::<K, V>::empty());
        r
    }

    /// The number of entries.
    pub fn len(&self) -> (r: usize)
        ensures
            r == self.entries@.len(),
    {
        self.entries.len()
    }

    /// The entry at an index is the one that the map has for its key.
    pub proof fn lemma_entry(self, i: int)
        requires
            self.wf(),
            0 <= i < self.entries@.len(),
        ensures
            self@.dom().contains(self.entries@[i].0),
            self@[self.entries@[i].0] == self.entries@[i].1,
            key_index(self.entries@, self.entries@[i].0) == i,
    {
        let k = self.entries@[i].0;
        assert(has_key(self.entries@, k));
        let j = key_index(self.entries@, k);
        assert(self.entries@[j].0 == k);
        if j < i {
            assert(self.entries@[j].0.rank() < self.entries@[i].0.rank());
        } else if i < j {
            assert(self.entries@[i].0.rank() < self.entries@[j].0.rank());
        }
    }

    /// The index of the first entry whose key does not precede `key`.
    pub fn lower_bound(&self, key: &K) -> (r: usize)
        requires
            self.wf(),
        ensures
            r <= self.entries@.len(),
            forall|i: int| 0 <= i < r ==> (#[trigger] self.entries@[i]).0.rank() < key.rank(),
            forall|i: int|
                r <= i < self.entries@.len() ==> (#[trigger] self.entries@[i]).0.rank()
                    >= key.rank(),
    {
        let mut lo: usize = 0;
        let mut hi: usize = self.entries.len();
        while lo < hi
            invariant
                self.wf(),
                lo <= hi <= self.entries@.len(),
                forall|i: int| 0 <= i < lo ==> (#[trigger] self.entries@[i]).0.rank() < key.rank(),
                forall|i: int|
                    hi <= i < self.entries@.len() ==> (#[trigger] self.entries@[i]).0.rank()
                        >= key.rank(),
            decreases hi - lo,
        {
            let mid = lo + (hi - lo) / 2;
            if self.entries[mid].0.precedes(key) {
                lo = mid + 1;
            } else {
                hi = mid;
            }
        }
        lo
    }

    /// The index of the entry for `key`.
    pub fn position(&self, key: &K) -> (r: Option<usize>)
        requires
            self.wf(),
        ensures
            match r {
                Some(i) => i < self.entries@.len() && self.entries@[i as int].0 == *key
                    && self@.dom().contains(*key) && self@[*key] == self.entries@[i as int].1,
                None => !self@.dom().contains(*key),
            },
    {
        let at = self.lower_bound(key);
        if at < self.entries.len() && !key.precedes(&self.entries[at].0) {
            proof {
                K::rank_is_unique(self.entries@[at as int].0, *key);
                self.lemma_entry(at as int);
            }
            Some(at)
        } else {
            None
        }
    }

    /// The value for `key`.
    pub fn get(&self, key: &K) -> (r: Option<&V>)
        requires
            self.wf(),
        ensures
            match r {
                Some(v) => self@.dom().contains(*key) && self@[*key] == *v,
                None => !self@.dom().contains(*key),
            },
    {
        match self.position(key) {
            Some(i) => Some(&self.entries[i].1),
            None => None,
        }
    }

    /// Puts a value under `key` and gives back the one that was there.
    pub fn insert(&mut self, key: K, value: V) -> (r: Option<V>)
        requires
            old(self).wf(),
        ensures
            final(self).wf(),
            final(self)@ == old(self)@.insert(key, value),
            match r {
                Some(v) => old(self)@.dom().contains(key) && old(self)@[key] == v,
                None => !old(self)@.dom().contains(key),
            },
    {
        let ghost before = *self;
        match self.position(&key) {
            Some(i) => {
                let old_entry = self.entries.remove(i);
                self.entries.insert(i, (key, value));
                proof {
                    assert(self.entries@ =~= before.entries@.update(i as int, (key, value)));
                    assert(ascending(self.entries@));
                    Self::lemma_view_update(before, *self, i as int, key, value);
                }
                Some(old_entry.1)
            },
            None => {
                let at = self.lower_bound(&key);
                self.entries.insert(at, (key, value));
                proof {
                    assert(self.entries@ =~= before.entries@.insert(at as int, (key, value)));
                    if at < before.entries@.len() && before.entries@[at as int].0.rank()
                        == key.rank() {
                        K::rank_is_unique(before.entries@[at as int].0, key);
                        before.lemma_entry(at as int);
                    }
                    assert(ascending(self.entries@));
                    Self::lemma_view_insert(before, *self, at as int, key, value);
                }
                None
            },
        }
    }

    /// Takes the value under `key` away.
    pub fn remove(&mut self, key: &K) -> (r: Option<V>)
        requires
            old(self).wf(),
        ensures
            final(self).wf(),
            final(self)@ == old(self)@.remove(*key),
            match r {
                Some(v) => old(self)@.dom().contains(*key) && old(self)@[*key] == v,
                None => !old(self)@.dom().contains(*key),
            },
    {
        let ghost before = *self;
        match self.position(key) {
            Some(i) => {
                let entry = self.entries.remove(i);
                proof {
                    assert(self.entries@ =~= before.entries@.remove(i as int));
                    assert(ascending(self.entries@));
                    Self::lemma_view_remove(before, *self, i as int);
                }
                Some(entry.1)
            },
            None => {
                assert(self@ =~= self@.remove(*key));
                None
            },
        }
    }

    /// What the map looks like after one entry was replaced.
    proof fn lemma_view_update(before: Self, after: Self, i: int, key: K, value: V)
        requires
            before.wf(),
            after.wf(),
            0 <= i < before.entries@.len(),
            before.entries@[i].0 == key,
            after.entries@ == before.entries@.update(i, (key, value)),
        ensures
            after@ == before@.insert(key, value),
    {
        assert forall|k: K| #[trigger]
            after@.dom().contains(k) == before@.insert(key, value).dom().contains(k) && (
        after@.dom().contains(k) ==> after@[k] == before@.insert(key, value)[k]) by {
            after.lemma_entry(i);
            if has_key(before.entries@, k) {
                let j = key_index(before.entries@, k);
                before.lemma_entry(j);
                after.lemma_entry(j);
            }
            if has_key(after.entries@, k) {
                let j = key_index(after.entries@, k);
                before.lemma_entry(j);
                after.lemma_entry(j);
            }
        }
        assert(after@ =~= before@.insert(key, value));
    }

    /// What the map looks like after an entry was added.
    proof fn lemma_view_insert(before: Self, after: Self, at: int, key: K, value: V)
        requires
            before.wf(),
            after.wf(),
            0 <= at <= before.entries@.len(),
            !has_key(before.entries@, key),
            after.entries@ == before.entries@.insert(at, (key, value)),
        ensures
            after@ == before@.insert(key, value),
    {
        assert forall|k: K| #[trigger]
            after@.dom().contains(k) == before@.insert(key, value).dom().contains(k) && (
        after@.dom().contains(k) ==> after@[k] == before@.insert(key, value)[k]) by {
            after.lemma_entry(at);
            if has_key(before.entries@, k) {
                let j = key_index(before.entries@, k);
                before.lemma_entry(j);
                let m = if j < at {
                    j
                } else {
                    j + 1
                };
                assert(after.entries@[m] == before.entries@[j]);
                after.lemma_entry(m);
            }
            if has_key(after.entries@, k) {
                let j = key_index(after.entries@, k);
                after.lemma_entry(j);
                if j != at {
                    let m = if j < at {
                        j
                    } else {
                        j - 1
                    };
                    assert(after.entries@[j] == before.entries@[m]);
                    before.lemma_entry(m);
                }
            }
        }
        assert(after@ =~= before@.insert(key, value));
    }

    /// What the map looks like after an entry was taken away.
    proof fn lemma_view_remove(before: Self, after: Self, i: int)
        requires
            before.wf(),
            after.wf(),
            0 <= i < before.entries@.len(),
            after.entries@ == before.entries@.remove(i),
        ensures
            after@ == before@.remove(before.entries@[i].0),
    {
        let key = before.entries@[i].0;
        assert forall|k: K| #[trigger]
            after@.dom().contains(k) == before@.remove(key).dom().contains(k) && (
        after@.dom().contains(k) ==> after@[k] == before@.remove(key)[k]) by {
            before.lemma_entry(i);
            if has_key(before.entries@, k) {
                let j = key_index(before.entries@, k);
                before.lemma_entry(j);
                if j != i {
                    let m = if j < i {
                        j
                    } else {
                        j - 1
                    };
                    assert(after.entries@[m] == before.entries@[j]);
                    after.lemma_entry(m);
                }
            }
            if has_key(after.entries@, k) {
                let j = key_index(after.entries@, k);
                after.lemma_entry(j);
                let m = if j < i {
                    j
                } else {
                    j + 1
                };
                assert(after.entries@[j] == before.entries@[m]);
                before.lemma_entry(m);
            }
        }
        assert(after@ =~= before@.remove(key));
    }
}

} // verus!
