//! A map that remembers the order in which its keys were first inserted.

use vstd::prelude::*;

verus! {

/// A key: its view decides which entry it names.
pub trait MapKey: View + Sized {
    /// Whether two keys name the same entry.
    fn same(&self, other: &Self) -> (r: bool)
        ensures
            r == (self@ == other@),
    ;
}

impl MapKey for String {
    fn same(&self, other: &Self) -> (r: bool) {
        *self == *other
    }
}

/// A value of which an equal second one can be made.
pub trait Duplicate: Sized {
    /// An equal value.
    fn duplicate(&self) -> (r: Self)
        ensures
            r == *self,
    ;
}

impl Duplicate for String {
    fn duplicate(&self) -> (r: Self) {
        self.clone()
    }
}

impl Duplicate for u64 {
    fn duplicate(&self) -> (r: Self) {
        *self
    }
}

/// Entries with pairwise different keys, in the order in which the keys came.
#[derive(Debug, PartialEq, Eq)]
pub struct AssocMap<K: View, V> {
    entries: Vec<(K, V)>,
}

/// `k` is the key of one of the entries.
pub open spec fn has_key<K: View, V>(entries: Seq<(K, V)>, k: K::V) -> bool {
    exists|i: int| 0 <= i < entries.len() && (#[trigger] entries[i]).0@ == k
}

/// The position of the entry with key `k`.
pub open spec fn key_index<K: View, V>(entries: Seq<(K, V)>, k: K::V) -> int {
    choose|i: int| 0 <= i < entries.len() && (#[trigger] entries[i]).0@ == k
}

/// No two entries have the same key.
pub open spec fn keys_distinct<K: View, V>(entries: Seq<(K, V)>) -> bool {
    forall|i: int, j: int|
        0 <= i < j < entries.len() ==> (#[trigger] entries[i]).0@ != (#[trigger] entries[j]).0@
}

/// The map that a list of entries with distinct keys stands for.
pub open spec fn entries_map<K: View, V>(entries: Seq<(K, V)>) -> Map<K::V, V> {
    Map::new(|k: K::V| has_key(entries, k), |k: K::V| entries[key_index(entries, k)].1)
}

impl<K: View, V> View for AssocMap<K, V> {
    type V = Map<K::V, V>;

    closed spec fn view(&self) -> Map<K::V, V> {
        entries_map(self.entries@)
    }
}

/// An entry's key leads to its value.
pub proof fn lemma_entry<K: View, V>(entries: Seq<(K, V)>, i: int)
    requires
        keys_distinct(entries),
        0 <= i < entries.len(),
    ensures
        entries_map(entries).contains_key(entries[i].0@),
        entries_map(entries)[entries[i].0@] == entries[i].1,
{
    let k = entries[i].0@;
    assert(has_key(entries, k));
    let j = key_index(entries, k);
    assert(0 <= j < entries.len() && entries[j].0@ == k);
}

/// There are as many keys as entries.
pub proof fn lemma_entries_len<K: View, V>(entries: Seq<(K, V)>)
    requires
        keys_distinct(entries),
    ensures
        entries_map(entries).dom().finite(),
        entries_map(entries).dom().len() == entries.len(),
{
    let keys = Seq::new(entries.len(), |i: int| entries[i].0@);
    assert(keys.no_duplicates());
    keys.unique_seq_to_set();
    assert forall|k: K::V| entries_map(entries).dom().contains(k) <==> keys.to_set().contains(k) by {
        if has_key(entries, k) {
            let i = key_index(entries, k);
            assert(keys[i] == k);
        }
        if keys.contains(k) {
            let i = choose|i: int| 0 <= i < keys.len() && keys[i] == k;
            assert(entries[i].0@ == k);
        }
    }
    assert(entries_map(entries).dom() =~= keys.to_set());
}

impl<K: View, V> AssocMap<K, V> {
    /// The entries in order.
    pub closed spec fn items(self) -> Seq<(K, V)> {
        self.entries@
    }

    /// The keys are distinct.
    #[verifier::type_invariant]
    pub closed spec fn wf(self) -> bool {
        keys_distinct(self.entries@)
    }

    /// The map is read off the entries.
    pub proof fn lemma_view(self)
        ensures
            self@ == entries_map(self.items()),
            self.wf() == keys_distinct(self.items()),
    {
    }
}

impl<K: MapKey, V> AssocMap<K, V> {
    /// The map without entries.
    pub fn new() -> (r: Self)
        ensures
            r.wf(),
            r@ == Map::<K::V, V>::empty(),
            r.items() == Seq::<(K, V)>::empty(),
    {
        let r = AssocMap { entries: Vec::new() };
        assert(r@ =~= Map::<K::V, V>::empty());
        r
    }

    /// Number of entries.
    pub fn len(&self) -> (r: usize)
        ensures
            self.wf(),
            self@.dom().finite(),
            r == self@.dom().len(),
            r == self.items().len(),
    {
        proof {
            use_type_invariant(self);
            lemma_entries_len(self.entries@);
        }
        self.entries.len()
    }

    /// Position of the key, if it has an entry.
    fn position(&self, key: &K) -> (r: Option<usize>)
        ensures
            match r {
                Some(i) => i < self.items().len() && self.items()[i as int].0@ == key@,
                None => !has_key(self.items(), key@),
            },
    {
        let mut i: usize = 0;
        while i < self.entries.len()
            invariant
                i <= self.entries@.len(),
                forall|j: int| 0 <= j < i ==> (#[trigger] self.entries@[j]).0@ != key@,
            decreases self.entries@.len() - i,
        {
            if self.entries[i].0.same(key) {
                return Some(i);
            }
            i += 1;
        }
        None
    }

    /// The key has an entry.
    pub fn contains_key(&self, key: &K) -> (r: bool)
        ensures
            r == self@.contains_key(key@),
            r == has_key(self.items(), key@),
    {
        proof {
            use_type_invariant(self);
        }
        match self.position(key) {
            Some(i) => {
                proof {
                    lemma_entry(self.entries@, i as int);
                }
                true
            },
            None => false,
        }
    }

    /// The value of the key.
    pub fn get(&self, key: &K) -> (r: Option<&V>)
        ensures
            r == (if self@.contains_key(key@) {
                Some(&self@[key@])
            } else {
                None
            }),
    {
        proof {
            use_type_invariant(self);
        }
        match self.position(key) {
            Some(i) => {
                proof {
                    lemma_entry(self.entries@, i as int);
                }
                Some(&self.entries[i].1)
            },
            None => None,
        }
    }

    /// The entry at a position.
    pub fn at(&self, i: usize) -> (r: &(K, V))
        requires
            i < self.items().len(),
        ensures
            *r == self.items()[i as int],
            self@.contains_key(r.0@),
            self@[r.0@] == r.1,
    {
        proof {
            use_type_invariant(self);
            lemma_entry(self.entries@, i as int);
        }
        &self.entries[i]
    }

    /// Sets the value of a key: in place if it has an entry, else behind the others.
    pub fn insert(&mut self, key: K, value: V)
        ensures
            final(self).wf(),
            final(self)@ == old(self)@.insert(key@, value),
            !has_key(old(self).items(), key@) ==> final(self).items() == old(self).items().push(
                (key, value),
            ),
            has_key(old(self).items(), key@) ==> final(self).items().len() == old(self).items().len() && forall|i: int|
                0 <= i < old(self).items().len() ==> (#[trigger] final(self).items()[i]).0@ == old(self).items()[i].0@,
    {
        proof {
            use_type_invariant(&*self);
        }
        let at = self.position(&key);
        let ghost before = self.entries@;
        let ghost k = key@;
        let mut entries: Vec<(K, V)> = Vec::new();
        std::mem::swap(&mut entries, &mut self.entries);
        match at {
            Some(i) => {
                entries[i] = (key, value);
                assert(entries@ == before.update(i as int, (key, value)));
                assert forall|x: K::V| has_key(entries@, x) == has_key(before, x) by {
                    if has_key(before, x) {
                        let j = key_index(before, x);
                        assert(entries@[j].0@ == x);
                    }
                    if has_key(entries@, x) {
                        let j = key_index(entries@, x);
                        assert(before[j].0@ == x);
                    }
                }
                assert(has_key(before, k)) by {
                    assert(before[i as int].0@ == k);
                }
                assert forall|x: K::V| has_key(before, x) implies entries_map(entries@)[x]
                    == entries_map(before).insert(k, value)[x] by {
                    let j = key_index(entries@, x);
                    lemma_entry(entries@, j);
                    if x != k {
                        lemma_entry(before, j);
                    } else {
                        assert(j == i);
                    }
                }
            },
            None => {
                entries.push((key, value));
                assert(entries@ == before.push((key, value)));
                assert forall|x: K::V|
                    has_key(entries@, x) == (has_key(before, x) || x == k) by {
                    if has_key(before, x) {
                        let j = key_index(before, x);
                        assert(entries@[j].0@ == x);
                    }
                    if x == k {
                        assert(entries@[before.len() as int].0@ == k);
                    }
                    if has_key(entries@, x) {
                        let j = key_index(entries@, x);
                        if j < before.len() {
                            assert(before[j].0@ == x);
                        }
                    }
                }
                assert(keys_distinct(entries@)) by {
                    assert forall|i: int, j: int| 0 <= i < j < entries@.len() implies (
                    #[trigger] entries@[i]).0@ != (#[trigger] entries@[j]).0@ by {
                        if j == before.len() {
                            assert(before[i].0@ == entries@[i].0@);
                            assert(has_key(before, entries@[i].0@));
                        } else {
                            assert(before[i].0@ != before[j].0@);
                        }
                    }
                }
                assert forall|x: K::V| has_key(entries@, x) implies entries_map(entries@)[x]
                    == entries_map(before).insert(k, value)[x] by {
                    let j = key_index(entries@, x);
                    lemma_entry(entries@, j);
                    if x != k {
                        lemma_entry(before, j);
                    }
                }
            },
        }
        assert(entries_map(entries@) =~= entries_map(before).insert(k, value));
        std::mem::swap(&mut entries, &mut self.entries);
    }

    /// Removes the entry of a key and hands its value back.
    pub fn remove(&mut self, key: &K) -> (r: Option<V>)
        ensures
            final(self).wf(),
            final(self)@ == old(self)@.remove(key@),
            r == (if old(self)@.contains_key(key@) {
                Some(old(self)@[key@])
            } else {
                None
            }),
            !old(self)@.contains_key(key@) ==> *final(self) == *old(self),
    {
        proof {
            use_type_invariant(&*self);
        }
        let ghost before = self.entries@;
        let ghost k = key@;
        match self.position(key) {
            Some(i) => {
                let mut entries: Vec<(K, V)> = Vec::new();
                std::mem::swap(&mut entries, &mut self.entries);
                proof {
                    lemma_entry(before, i as int);
                }
                let removed = entries.remove(i);
                assert(entries@ == before.remove(i as int));
                assert(keys_distinct(entries@)) by {
                    assert forall|a: int, b: int| 0 <= a < b < entries@.len() implies (
                    #[trigger] entries@[a]).0@ != (#[trigger] entries@[b]).0@ by {
                        let a1 = if a < i { a } else { a + 1 };
                        let b1 = if b < i { b } else { b + 1 };
                        assert(before[a1].0@ != before[b1].0@);
                    }
                }
                assert forall|x: K::V| has_key(entries@, x) == (has_key(before, x) && x != k) by {
                    if has_key(before, x) && x != k {
                        let j = key_index(before, x);
                        let j1 = if j < i { j } else { j - 1 };
                        assert(entries@[j1].0@ == x);
                    }
                    if has_key(entries@, x) {
                        let j = key_index(entries@, x);
                        let j1 = if j < i { j } else { j + 1 };
                        assert(before[j1].0@ == x);
                        if x == k {
                            assert(before[j1].0@ == before[i as int].0@);
                            assert(false);
                        }
                    }
                }
                assert forall|x: K::V| has_key(entries@, x) implies entries_map(entries@)[x]
                    == entries_map(before)[x] by {
                    let j = key_index(entries@, x);
                    lemma_entry(entries@, j);
                    let j1 = if j < i { j } else { j + 1 };
                    lemma_entry(before, j1);
                }
                assert(entries_map(entries@) =~= entries_map(before).remove(k));
                std::mem::swap(&mut entries, &mut self.entries);
                Some(removed.1)
            },
            None => {
                assert(self@ =~= self@.remove(k));
                None
            },
        }
    }
}

impl<V> AssocMap<String, V> {
    /// The value of a key given as a string slice.
    pub fn get_str(&self, key: &str) -> (r: Option<&V>)
        ensures
            r == (if self@.contains_key(key@) {
                Some(&self@[key@])
            } else {
                None
            }),
    {
        let owned: String = key.to_owned();
        self.get(&owned)
    }
}

impl<K: MapKey + Duplicate, V: Duplicate> Clone for AssocMap<K, V> {
    fn clone(&self) -> (r: Self)
        ensures
            r.wf(),
            r.items() == self.items(),
            r@ == self@,
    {
        proof {
            use_type_invariant(self);
        }
        let mut entries: Vec<(K, V)> = Vec::new();
        let mut i: usize = 0;
        while i < self.entries.len()
            invariant
                i <= self.entries@.len(),
                entries@ == self.entries@.take(i as int),
            decreases self.entries@.len() - i,
        {
            let k = self.entries[i].0.duplicate();
            let v = self.entries[i].1.duplicate();
            entries.push((k, v));
            i += 1;
            assert(entries@ =~= self.entries@.take(i as int));
        }
        assert(entries@ =~= self.entries@);
        AssocMap { entries }
    }
}

impl<K: MapKey, V> Default for AssocMap<K, V> {
    fn default() -> (r: Self)
        ensures
            r.wf(),
            r@ == Map::<K::V, V>::empty(),
            r.items() == Seq::<(K, V)>::empty(),
    {
        Self::new()
    }
}

} // verus!
