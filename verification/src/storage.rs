//! Keyed storage: the maps in which the pallet keeps its records.
use vstd::prelude::*;

verus! {

/// A type whose values can be told apart and duplicated faithfully.
///
/// Storage keys have to be such a type, and so do the account identifiers that the pallet copies
/// into its records.
pub trait StorageKey: Sized {
    /// Whether the two keys are the same key.
    fn same(&self, other: &Self) -> (b: bool)
        ensures
            b == (*self == *other),
    ;

    /// A second copy of the key.
    fn duplicate(&self) -> (copy: Self)
        ensures
            copy == *self,
    ;
}

impl StorageKey for u32 {
    fn same(&self, other: &Self) -> (b: bool) {
        *self == *other
    }

    fn duplicate(&self) -> (copy: Self) {
        *self
    }
}

impl StorageKey for u64 {
    fn same(&self, other: &Self) -> (b: bool) {
        *self == *other
    }

    fn duplicate(&self) -> (copy: Self) {
        *self
    }
}

impl StorageKey for u128 {
    fn same(&self, other: &Self) -> (b: bool) {
        *self == *other
    }

    fn duplicate(&self) -> (copy: Self) {
        *self
    }
}

impl<A: StorageKey, B: StorageKey> StorageKey for (A, B) {
    fn same(&self, other: &Self) -> (b: bool) {
        self.0.same(&other.0) && self.1.same(&other.1)
    }

    fn duplicate(&self) -> (copy: Self) {
        (self.0.duplicate(), self.1.duplicate())
    }
}

/// A finite map from keys to values. Its view is the mathematical map that it holds.
#[verifier::reject_recursive_types(K)]
pub struct StorageMap<K, V> {
    entries: Vec<(K, V)>,
    contents: Ghost<Map<K, V>>,
}

impl<K, V> View for StorageMap<K, V> {
    type V = Map<K, V>;

    closed spec fn view(&self) -> Map<K, V> {
        self.contents@
    }
}

impl<K, V> StorageMap<K, V> {
    /// Every key is kept in exactly one entry, beside the value that it maps to.
    pub closed spec fn wf(self) -> bool {
        &&& self@.dom().finite()
        &&& forall|i: int| #![trigger self.entries@[i]]
            0 <= i < self.entries@.len() ==> self@.contains_key(self.entries@[i].0)
                && self@[self.entries@[i].0] == self.entries@[i].1
        &&& forall|k: K| #[trigger]
            self@.contains_key(k) ==> exists|i: int|
                0 <= i < self.entries@.len() && #[trigger] self.entries@[i].0 == k
        &&& forall|i: int, j: int| #![trigger self.entries@[i], self.entries@[j]]
            0 <= i < j < self.entries@.len() ==> self.entries@[i].0 != self.entries@[j].0
    }

    /// A well-formed map holds finitely many keys.
    pub proof fn lemma_finite(self)
        requires
            self.wf(),
        ensures
            self@.dom().finite(),
    {
    }

    /// The map that holds nothing.
    pub fn new() -> (map: Self)
        ensures
            map.wf(),
            map@ == Map::<K, V>::empty(),
    {
        StorageMap { entries: Vec::new(), contents: Ghost(Map::empty()) }
    }
}

impl<K: StorageKey, V> StorageMap<K, V> {
    /// Where the entry for `key` stands, if there is one.
    fn position(&self, key: &K) -> (found: Option<usize>)
        requires
            self.wf(),
        ensures
            match found {
                Some(i) => i < self.entries@.len() && self.entries@[i as int].0 == *key,
                None => !self@.contains_key(*key),
            },
    {
        let mut i: usize = 0;
        while i < self.entries.len()
            invariant
                i <= self.entries@.len(),
                forall|j: int| 0 <= j < i ==> (#[trigger] self.entries@[j]).0 != *key,
            decreases self.entries@.len() - i,
        {
            if self.entries[i].0.same(key) {
                return Some(i);
            }
            i = i + 1;
        }
        None
    }

    /// The value under `key`, if there is one.
    pub fn get(&self, key: &K) -> (value: Option<&V>)
        requires
            self.wf(),
        ensures
            match value {
                Some(v) => self@.contains_key(*key) && *v == self@[*key],
                None => !self@.contains_key(*key),
            },
    {
        match self.position(key) {
            Some(i) => Some(&self.entries[i].1),
            None => None,
        }
    }

    /// Whether there is a value under `key`.
    pub fn contains_key(&self, key: &K) -> (found: bool)
        requires
            self.wf(),
        ensures
            found == self@.contains_key(*key),
    {
        self.position(key).is_some()
    }

    /// The keys that there is a value under, each once.
    pub fn keys(&self) -> (keys: Vec<K>)
        requires
            self.wf(),
        ensures
            keys@.no_duplicates(),
            forall|i: int| 0 <= i < keys@.len() ==> self@.contains_key(#[trigger] keys@[i]),
            forall|k: K| #[trigger] self@.contains_key(k) ==> keys@.contains(k),
    {
        let mut keys: Vec<K> = Vec::new();
        let mut i: usize = 0;
        while i < self.entries.len()
            invariant
                i <= self.entries@.len(),
                keys@.len() == i,
                forall|j: int| 0 <= j < i ==> #[trigger] keys@[j] == self.entries@[j].0,
            decreases self.entries@.len() - i,
        {
            keys.push(self.entries[i].0.duplicate());
            i = i + 1;
        }
        proof {
            assert forall|k: K| #[trigger] self@.contains_key(k) implies keys@.contains(k) by {
                let j = choose|j: int|
                    0 <= j < self.entries@.len() && #[trigger] self.entries@[j].0 == k;
                assert(keys@[j] == k);
            }
        }
        keys
    }

    /// Takes the value under `key` out of the map.
    pub fn take(&mut self, key: &K) -> (value: Option<V>)
        requires
            old(self).wf(),
        ensures
            final(self).wf(),
            final(self)@ == old(self)@.remove(*key),
            match value {
                Some(v) => old(self)@.contains_key(*key) && v == old(self)@[*key],
                None => !old(self)@.contains_key(*key),
            },
    {
        match self.position(key) {
            Some(i) => {
                let (_, value) = self.entries.swap_remove(i);
                self.contents = Ghost(self.contents@.remove(*key));
                proof {
                    let before = old(self).entries@;
                    let after = self.entries@;
                    let last = before.len() - 1;
                    assert forall|k: K| #[trigger] self@.contains_key(k) implies exists|j: int|
                        0 <= j < after.len() && #[trigger] after[j].0 == k by {
                        let j = choose|j: int| 0 <= j < before.len() && #[trigger] before[j].0 == k;
                        if j == last {
                            assert(after[i as int].0 == k);
                        } else {
                            assert(after[j].0 == k);
                        }
                    }
                }
                Some(value)
            },
            None => {
                proof {
                    assert(self@.remove(*key) =~= self@);
                }
                None
            },
        }
    }

    /// Puts `value` under `key`, in place of what stood there.
    pub fn insert(&mut self, key: K, value: V)
        requires
            old(self).wf(),
        ensures
            final(self).wf(),
            final(self)@ == old(self)@.insert(key, value),
    {
        let _ = self.take(&key);
        let ghost before = *self;
        self.entries.push((key, value));
        self.contents = Ghost(self.contents@.insert(key, value));
        proof {
            assert(self@ =~= old(self)@.insert(key, value));
            let n = before.entries@.len() as int;
            assert(self.entries@[n] == (key, value));
            assert forall|k: K| #[trigger] self@.contains_key(k) implies exists|j: int|
                0 <= j < self.entries@.len() && #[trigger] self.entries@[j].0 == k by {
                if k != key {
                    assert(before@.contains_key(k));
                    let j = choose|j: int|
                        0 <= j < before.entries@.len() && #[trigger] before.entries@[j].0 == k;
                    assert(self.entries@[j].0 == k);
                } else {
                    assert(self.entries@[n].0 == k);
                }
            }
        }
    }

    /// Puts back under `key` what `take` or `get` found there: a value, or nothing.
    pub fn restore(&mut self, key: K, value: Option<V>)
        requires
            old(self).wf(),
        ensures
            final(self).wf(),
            value matches Some(v) ==> final(self)@ == old(self)@.insert(key, v),
            value is None ==> final(self)@ == old(self)@.remove(key),
    {
        match value {
            Some(v) => self.insert(key, v),
            None => {
                let _ = self.take(&key);
            },
        }
    }
}

} // verus!
