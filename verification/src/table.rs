//! Tables: the vault's stored values by user, by epoch, or by user and epoch.
use crate::address::Address;
use vstd::prelude::*;

verus! {

/// What a table can be keyed by.
pub trait Key: Copy {
    /// Whether two keys are the same.
    fn same(&self, other: &Self) -> (r: bool)
        ensures
            r == (*self == *other),
    ;
}

impl Key for Address {
    fn same(&self, other: &Self) -> (r: bool) {
        *self == *other
    }
}

impl Key for u32 {
    fn same(&self, other: &Self) -> (r: bool) {
        *self == *other
    }
}

/// A user in an epoch.
#[derive(Clone, Copy, Debug, PartialEq, Eq, Structural)]
pub struct UserEpochSnapshotKey {
    pub user: Address,
    pub epoch: u32,
}

impl Key for UserEpochSnapshotKey {
    fn same(&self, other: &Self) -> (r: bool) {
        *self == *other
    }
}

/// The place of the first entry under `key`, or the number of entries where there is none.
spec fn place<K, V>(entries: Seq<(K, V)>, key: K) -> int
    decreases entries.len(),
{
    if entries.len() == 0 || entries[0].0 == key {
        0
    } else {
        1 + place(entries.skip(1), key)
    }
}

proof fn lemma_place<K, V>(entries: Seq<(K, V)>, key: K)
    ensures
        0 <= place(entries, key) <= entries.len(),
        place(entries, key) < entries.len() ==> entries[place(entries, key)].0 == key,
        forall|i: int| 0 <= i < place(entries, key) ==> (#[trigger] entries[i]).0 != key,
    decreases entries.len(),
{
    if entries.len() > 0 && entries[0].0 != key {
        lemma_place(entries.skip(1), key);
        assert forall|i: int| 0 <= i < place(entries, key) implies (#[trigger] entries[i]).0
            != key by {
            if i > 0 {
                assert(entries[i] == entries.skip(1)[i - 1]);
            }
        }
    }
}

proof fn lemma_place_is<K, V>(entries: Seq<(K, V)>, key: K, k: int)
    requires
        0 <= k <= entries.len(),
        k < entries.len() ==> entries[k].0 == key,
        forall|i: int| 0 <= i < k ==> (#[trigger] entries[i]).0 != key,
    ensures
        place(entries, key) == k,
{
    lemma_place(entries, key);
    let p = place(entries, key);
    if p < k {
        assert(entries[p].0 == key);
    }
    if k < p {
        assert(entries[k].0 != key);
    }
}

/// A value for each of some keys.
#[derive(Clone)]
pub struct Table<K, V> {
    entries: Vec<(K, V)>,
}

impl<K: Key, V: View> View for Table<K, V> {
    type V = Map<K, V::V>;

    closed spec fn view(&self) -> Map<K, V::V> {
        Map::new(
            |key: K| place(self.entries@, key) < self.entries@.len(),
            |key: K| self.entries@[place(self.entries@, key)].1.view(),
        )
    }
}

impl<K: Key, V: View> Table<K, V> {
    /// A table without entries.
    pub fn new() -> (table: Self)
        ensures
            table@ == Map::<K, V::V>::empty(),
    {
        let table = Table { entries: Vec::new() };
        assert(table@ =~= Map::<K, V::V>::empty());
        table
    }

    fn find(&self, key: K) -> (i: usize)
        ensures
            i == place(self.entries@, key),
            i <= self.entries@.len(),
    {
        let mut i: usize = 0;
        while i < self.entries.len()
            invariant
                i <= self.entries@.len(),
                forall|k: int| 0 <= k < i ==> (#[trigger] self.entries@[k]).0 != key,
            decreases self.entries@.len() - i,
        {
            if self.entries[i].0.same(&key) {
                proof {
                    lemma_place_is(self.entries@, key, i as int);
                }
                return i;
            }
            i = i + 1;
        }
        proof {
            lemma_place_is(self.entries@, key, i as int);
        }
        i
    }

    /// The value under a key.
    pub fn get(&self, key: K) -> (value: Option<&V>)
        ensures
            value is Some == self@.contains_key(key),
            value matches Some(v) ==> v.view() == self@[key],
    {
        let i: usize = self.find(key);
        if i < self.entries.len() {
            Some(&self.entries[i].1)
        } else {
            None
        }
    }

    /// Stores a value under a key, in place of the one that may be there.
    pub fn set(&mut self, key: K, value: V)
        ensures
            final(self)@ == old(self)@.insert(key, value.view()),
    {
        let ghost before = self.entries@;
        let i: usize = self.find(key);
        proof {
            lemma_place(before, key);
        }
        if i < self.entries.len() {
            self.entries[i] = (key, value);
        } else {
            self.entries.push((key, value));
        }
        proof {
            let after = self.entries@;
            assert forall|other: K| #[trigger] place(after, other) == (if other == key {
                i as int
            } else if place(before, other) < before.len() {
                place(before, other)
            } else {
                after.len() as int
            }) by {
                lemma_place(before, other);
                lemma_place_is(
                    after,
                    other,
                    if other == key {
                        i as int
                    } else if place(before, other) < before.len() {
                        place(before, other)
                    } else {
                        after.len() as int
                    },
                );
            }
            assert forall|other: K| old(self)@.contains_key(other) && other != key implies
                #[trigger] self@[other] == old(self)@[other] by {
                lemma_place(before, other);
                assert(after[place(before, other)] == before[place(before, other)]);
            }
            assert(self@ =~= old(self)@.insert(key, value.view()));
        }
    }

    /// The keys that have a value.
    pub fn keys(&self) -> (keys: Vec<K>)
        ensures
            forall|key: K| #[trigger] keys@.contains(key) == self@.contains_key(key),
    {
        let mut keys: Vec<K> = Vec::new();
        let mut i: usize = 0;
        while i < self.entries.len()
            invariant
                i <= self.entries@.len(),
                keys@.len() == i,
                forall|k: int| 0 <= k < i ==> keys@[k] == (#[trigger] self.entries@[k]).0,
            decreases self.entries@.len() - i,
        {
            keys.push(self.entries[i].0);
            i = i + 1;
        }
        proof {
            assert forall|key: K| #[trigger] keys@.contains(key) == self@.contains_key(key) by {
                lemma_place(self.entries@, key);
                if self@.contains_key(key) {
                    assert(keys@[place(self.entries@, key)] == key);
                }
                if keys@.contains(key) {
                    let k = choose|k: int| 0 <= k < keys@.len() && keys@[k] == key;
                    assert(self.entries@[k].0 == key);
                }
            }
        }
        keys
    }
}

} // verus!
