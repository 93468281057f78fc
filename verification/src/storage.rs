//! Key-value storage in the style of a runtime storage map: an association
//! list whose keys are compared by their views, with a ghost map as its model.
use vstd::prelude::*;

verus! {

/// A key of a [`StorageMap`]: two keys are the same key when their views agree.
pub trait StoreKey: View + Sized {
    fn same_key(&self, other: &Self) -> (b: bool)
        ensures
            b == (self@ == other@),
    ;

    fn copy_key(&self) -> (k: Self)
        ensures
            k@ == self@,
    ;
}

impl StoreKey for u32 {
    fn same_key(&self, other: &Self) -> (b: bool) {
        *self == *other
    }

    fn copy_key(&self) -> (k: Self) {
        *self
    }
}

impl StoreKey for (u64, Option<u32>) {
    fn same_key(&self, other: &Self) -> (b: bool) {
        if self.0 != other.0 {
            return false;
        }
        match (self.1, other.1) {
            (None, None) => true,
            (Some(a), Some(b)) => a == b,
            _ => false,
        }
    }

    fn copy_key(&self) -> (k: Self) {
        (self.0, self.1)
    }
}

impl StoreKey for Vec<u8> {
    fn same_key(&self, other: &Self) -> (b: bool) {
        if self.len() != other.len() {
            assert(self@.len() != other@.len());
            return false;
        }
        let n = self.len();
        let mut i: usize = 0;
        while i < n
            invariant
                n == self@.len(),
                n == other@.len(),
                0 <= i <= n,
                forall|j: int| 0 <= j < i ==> self@[j] == other@[j],
            decreases n - i,
        {
            if self[i] != other[i] {
                return false;
            }
            i = i + 1;
        }
        assert(self@ =~= other@);
        true
    }

    fn copy_key(&self) -> (k: Self) {
        let k = self.clone();
        assert(k@ =~= self@);
        k
    }
}

/// A finite map from keys (taken by their views) to values, kept as a list of
/// entries in which no key occurs twice.
pub struct StorageMap<K: View, V> {
    entries: Vec<(K, V)>,
    contents: Ghost<Map<K::V, V>>,
}

/// The value under `k` in `m`, if there is one.
pub open spec fn map_get<K, V>(m: Map<K, V>, k: K) -> Option<V> {
    if m.dom().contains(k) {
        Some(m[k])
    } else {
        None
    }
}

impl<K: View, V> View for StorageMap<K, V> {
    type V = Map<K::V, V>;

    closed spec fn view(&self) -> Map<K::V, V> {
        self.contents@
    }
}

impl<K: StoreKey, V: Copy> StorageMap<K, V> {
    spec fn key_at(&self, i: int) -> K::V {
        self.entries@[i].0@
    }

    /// The entries agree with the model and hold each key once.
    pub closed spec fn wf(&self) -> bool {
        &&& self.contents@.dom().finite()
        &&& forall|i: int|
            0 <= i < self.entries@.len() ==> {
                &&& self.contents@.dom().contains(#[trigger] self.key_at(i))
                &&& self.contents@[self.key_at(i)] == self.entries@[i].1
            }
        &&& forall|k: K::V|
            #[trigger] self.contents@.dom().contains(k) ==> exists|i: int|
                0 <= i < self.entries@.len() && self.key_at(i) == k
        &&& forall|i: int, j: int|
            0 <= i < self.entries@.len() && 0 <= j < self.entries@.len() && i != j ==> self.key_at(i)
                != self.key_at(j)
    }

    /// A well-formed map has finitely many keys.
    pub proof fn lemma_finite(&self)
        requires
            self.wf(),
        ensures
            self@.dom().finite(),
    {
    }

    /// An empty map.
    pub fn new() -> (m: Self)
        ensures
            m.wf(),
            m@ == Map::<K::V, V>::empty(),
    {
        StorageMap { entries: Vec::new(), contents: Ghost(Map::empty()) }
    }

    /// The position of the entry for `k`.
    fn find(&self, k: &K) -> (r: Option<usize>)
        requires
            self.wf(),
        ensures
            match r {
                Some(i) => i < self.entries@.len() && self.key_at(i as int) == k@,
                None => !self@.dom().contains(k@),
            },
    {
        let mut i: usize = 0;
        while i < self.entries.len()
            invariant
                self.wf(),
                0 <= i <= self.entries@.len(),
                forall|j: int| 0 <= j < i ==> self.key_at(j) != k@,
            decreases self.entries@.len() - i,
        {
            if self.entries[i].0.same_key(k) {
                return Some(i);
            }
            i = i + 1;
        }
        None
    }

    /// Whether `k` has a value.
    pub fn contains_key(&self, k: &K) -> (b: bool)
        requires
            self.wf(),
        ensures
            b == self@.dom().contains(k@),
    {
        self.find(k).is_some()
    }

    /// The value under `k`, if there is one.
    pub fn get(&self, k: &K) -> (r: Option<V>)
        requires
            self.wf(),
        ensures
            r == map_get(self@, k@),
    {
        match self.find(k) {
            Some(i) => Some(self.entries[i].1),
            None => None,
        }
    }

    /// Puts `v` under `k`, replacing any value there.
    pub fn insert(&mut self, k: K, v: V)
        requires
            old(self).wf(),
        ensures
            final(self).wf(),
            final(self)@ == old(self)@.insert(k@, v),
    {
        let ghost kv = k@;
        let ghost new_contents = self.contents@.insert(kv, v);
        match self.find(&k) {
            Some(i) => {
                self.entries.set(i, (k, v));
                self.contents = Ghost(new_contents);
                assert(self.key_at(i as int) == kv);
                assert forall|j: int| 0 <= j < self.entries@.len() && j != i implies self.key_at(j)
                    == old(self).key_at(j) && self.key_at(j) != kv by {
                    assert(old(self).key_at(j) != old(self).key_at(i as int));
                }
                assert forall|k2: K::V| #[trigger] self.contents@.dom().contains(k2) implies exists|
                    j: int,
                | 0 <= j < self.entries@.len() && self.key_at(j) == k2 by {
                    if k2 != kv {
                        assert(old(self).contents@.dom().contains(k2));
                        let j = choose|j: int|
                            0 <= j < old(self).entries@.len() && old(self).key_at(j) == k2;
                        assert(self.key_at(j) == k2);
                    }
                }
            },
            None => {
                let ghost n = self.entries@.len();
                self.entries.push((k, v));
                self.contents = Ghost(new_contents);
                assert(self.key_at(n as int) == kv);
                assert forall|i: int|
                    0 <= i < self.entries@.len() implies {
                    &&& self.contents@.dom().contains(#[trigger] self.key_at(i))
                    &&& self.contents@[self.key_at(i)] == self.entries@[i].1
                } by {
                    if i < n {
                        assert(old(self).key_at(i) == self.key_at(i));
                    }
                }
                assert forall|k2: K::V| #[trigger] self.contents@.dom().contains(k2) implies exists|
                    j: int,
                | 0 <= j < self.entries@.len() && self.key_at(j) == k2 by {
                    if k2 != kv {
                        assert(old(self).contents@.dom().contains(k2));
                        let j = choose|j: int|
                            0 <= j < old(self).entries@.len() && old(self).key_at(j) == k2;
                        assert(self.key_at(j) == k2);
                    }
                }
                assert forall|i: int, j: int|
                    0 <= i < self.entries@.len() && 0 <= j < self.entries@.len() && i
                        != j implies self.key_at(i) != self.key_at(j) by {
                    if i < n && j < n {
                        assert(old(self).key_at(i) == self.key_at(i));
                        assert(old(self).key_at(j) == self.key_at(j));
                    } else if i < n {
                        assert(old(self).key_at(i) == self.key_at(i));
                        assert(old(self).contents@.dom().contains(old(self).key_at(i)));
                    } else if j < n {
                        assert(old(self).key_at(j) == self.key_at(j));
                        assert(old(self).contents@.dom().contains(old(self).key_at(j)));
                    }
                }
            },
        }
    }

    /// Removes the value under `k` and hands it back, if there was one.
    pub fn take(&mut self, k: &K) -> (r: Option<V>)
        requires
            old(self).wf(),
        ensures
            final(self).wf(),
            r == map_get(old(self)@, k@),
            final(self)@ == old(self)@.remove(k@),
    {
        match self.find(k) {
            Some(i) => {
                let ghost kv = k@;
                let ghost n = self.entries@.len();
                let (_, v) = self.entries.remove(i);
                self.contents = Ghost(self.contents@.remove(kv));
                assert forall|j: int|
                    0 <= j < self.entries@.len() implies {
                    &&& self.contents@.dom().contains(#[trigger] self.key_at(j))
                    &&& self.contents@[self.key_at(j)] == self.entries@[j].1
                } by {
                    if j < i {
                        assert(self.key_at(j) == old(self).key_at(j));
                        assert(old(self).key_at(j) != old(self).key_at(i as int));
                    } else {
                        assert(self.key_at(j) == old(self).key_at(j + 1));
                        assert(old(self).key_at(j + 1) != old(self).key_at(i as int));
                    }
                }
                assert forall|k2: K::V| #[trigger] self.contents@.dom().contains(k2) implies exists|
                    j: int,
                | 0 <= j < self.entries@.len() && self.key_at(j) == k2 by {
                    assert(old(self).contents@.dom().contains(k2));
                    let j = choose|j: int|
                        0 <= j < old(self).entries@.len() && old(self).key_at(j) == k2;
                    if j < i {
                        assert(self.key_at(j) == k2);
                    } else {
                        assert(j != i);
                        assert(self.key_at(j - 1) == k2);
                    }
                }
                assert forall|a: int, b: int|
                    0 <= a < self.entries@.len() && 0 <= b < self.entries@.len() && a
                        != b implies self.key_at(a) != self.key_at(b) by {
                    let a0 = if a < i {
                        a
                    } else {
                        a + 1
                    };
                    let b0 = if b < i {
                        b
                    } else {
                        b + 1
                    };
                    assert(self.key_at(a) == old(self).key_at(a0));
                    assert(self.key_at(b) == old(self).key_at(b0));
                }
                Some(v)
            },
            None => {
                assert(self.contents@.remove(k@) =~= self.contents@);
                None
            },
        }
    }
}

} // verus!
