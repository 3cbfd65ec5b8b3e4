//! A map and a set keyed by values that are compared by their models, in
//! which no key occurs twice, and a queue to take the items of a vector
//! from the front.

use vstd::prelude::*;

verus! {

/// A key: a value that can be compared with another by what it stands for.
pub trait Key: View + Sized {
    /// Whether the two keys stand for the same thing.
    fn same(&self, other: &Self) -> (b: bool)
        ensures
            b == (self@ == other@),
    ;
}

impl Key for String {
    fn same(&self, other: &String) -> (b: bool) {
        *self == *other
    }
}

/// Whether some entry has the key `k`.
pub open spec fn has_key<K: View, V>(entries: Seq<(K, V)>, k: K::V) -> bool {
    exists|i: int| 0 <= i < entries.len() && (#[trigger] entries[i]).0@ == k
}

/// The place of an entry with the key `k`.
pub open spec fn index_of<K: View, V>(entries: Seq<(K, V)>, k: K::V) -> int {
    choose|i: int| 0 <= i < entries.len() && (#[trigger] entries[i]).0@ == k
}

/// Whether no two entries have the same key.
pub open spec fn distinct_keys<K: View, V>(entries: Seq<(K, V)>) -> bool {
    forall|i: int, j: int|
        0 <= i < j < entries.len() ==> (#[trigger] entries[i]).0@ != (#[trigger] entries[j]).0@
}

/// The map that the entries spell out.
pub open spec fn entries_map<K: View, V>(entries: Seq<(K, V)>) -> Map<K::V, V> {
    Map::new(|k: K::V| has_key(entries, k), |k: K::V| entries[index_of(entries, k)].1)
}

/// With distinct keys, each entry is what the map holds under its key.
pub proof fn lemma_entries_map<K: View, V>(entries: Seq<(K, V)>)
    requires
        distinct_keys(entries),
    ensures
        forall|i: int|
            0 <= i < entries.len() ==> entries_map(entries).contains_key(
                (#[trigger] entries[i]).0@,
            ) && entries_map(entries)[entries[i].0@] == entries[i].1,
{
    assert forall|i: int| 0 <= i < entries.len() implies entries_map(entries).contains_key(
        (#[trigger] entries[i]).0@,
    ) && entries_map(entries)[entries[i].0@] == entries[i].1 by {
        let k = entries[i].0@;
        let j = index_of(entries, k);
        assert(has_key(entries, k));
        assert(0 <= j < entries.len() && entries[j].0@ == k);
        if i < j {
            assert(entries[i].0@ != entries[j].0@);
        } else if j < i {
            assert(entries[j].0@ != entries[i].0@);
        }
    }
}

/// A map from keys to values.
pub struct KeyMap<K: Key, V> {
    entries: Vec<(K, V)>,
}

impl<K: Key, V> View for KeyMap<K, V> {
    type V = Map<K::V, V>;

    closed spec fn view(&self) -> Map<K::V, V> {
        entries_map(self.entries@)
    }
}

impl<K: Key, V> KeyMap<K, V> {
    #[verifier::type_invariant]
    spec fn keys_are_distinct(self) -> bool {
        distinct_keys(self.entries@)
    }

    /// The map that holds nothing.
    pub fn new() -> (m: Self)
        ensures
            m@ == Map::<K::V, V>::empty(),
    {
        let m = KeyMap { entries: Vec::new() };
        assert(m@ =~= Map::<K::V, V>::empty());
        m
    }

    /// Moves the entries out and leaves the map empty.
    fn take_entries(&mut self) -> (entries: Vec<(K, V)>)
        ensures
            entries@ == old(self).entries@,
            distinct_keys(entries@),
            final(self).entries@ == Seq::<(K, V)>::empty(),
    {
        proof {
            use_type_invariant(&*self);
        }
        let mut taken = KeyMap { entries: Vec::new() };
        core::mem::swap(self, &mut taken);
        let KeyMap { entries } = taken;
        entries
    }

    /// The place of the entry with the key `k`, if there is one.
    fn position(&self, k: &K) -> (r: Option<usize>)
        ensures
            match r {
                Some(i) => i < self.entries@.len() && self.entries@[i as int].0@ == k@,
                None => !has_key(self.entries@, k@),
            },
    {
        let mut i: usize = 0;
        while i < self.entries.len()
            invariant
                i <= self.entries@.len(),
                forall|j: int| 0 <= j < i ==> (#[trigger] self.entries@[j]).0@ != k@,
            decreases self.entries@.len() - i,
        {
            if self.entries[i].0.same(k) {
                return Some(i);
            }
            i = i + 1;
        }
        None
    }

    /// Whether the map holds a value under `k`.
    pub fn contains_key(&self, k: &K) -> (b: bool)
        ensures
            b == self@.contains_key(k@),
    {
        self.position(k).is_some()
    }

    /// The value under `k`, if there is one.
    pub fn get(&self, k: &K) -> (r: Option<&V>)
        ensures
            match r {
                Some(v) => self@.contains_key(k@) && *v == self@[k@],
                None => !self@.contains_key(k@),
            },
    {
        proof {
            use_type_invariant(self);
            lemma_entries_map(self.entries@);
        }
        match self.position(k) {
            Some(i) => Some(&self.entries[i].1),
            None => None,
        }
    }

    /// Puts `v` under `k` and hands back what was there before.
    pub fn insert(&mut self, k: K, v: V) -> (r: Option<V>)
        ensures
            final(self)@ == old(self)@.insert(k@, v),
            match r {
                Some(before) => old(self)@.contains_key(k@) && before == old(self)@[k@],
                None => !old(self)@.contains_key(k@),
            },
    {
        proof {
            use_type_invariant(&*self);
            lemma_entries_map(self.entries@);
        }
        let ghost before = self.entries@;
        match self.position(&k) {
            Some(i) => {
                let mut entries = self.take_entries();
                let (_, old_v) = entries.remove(i);
                entries.insert(i, (k, v));
                proof {
                    let after = entries@;
                    assert(after =~= before.update(i as int, (k, v)));
                    assert(distinct_keys(after)) by {
                        assert forall|a: int, b: int| 0 <= a < b < after.len() implies (
                        #[trigger] after[a]).0@ != (#[trigger] after[b]).0@ by {
                            assert(before[a].0@ != before[b].0@);
                        }
                    }
                    lemma_entries_map(after);
                    assert forall|q: K::V| has_key(after, q) <==> (q == k@ || has_key(
                        before,
                        q,
                    )) by {
                        if has_key(after, q) {
                            let j = index_of(after, q);
                            assert(before[j].0@ == q);
                        }
                        if has_key(before, q) {
                            let j = index_of(before, q);
                            assert(after[j].0@ == q);
                        }
                        if q == k@ {
                            assert(after[i as int].0@ == q);
                        }
                    }
                    assert forall|q: K::V| has_key(after, q) implies entries_map(after)[q]
                        == old(self)@.insert(k@, v)[q] by {
                        let j = index_of(after, q);
                        assert(after[j].0@ == q);
                        assert(before[j].0@ == q);
                    }
                }
                *self = KeyMap { entries };
                assert(self@ =~= old(self)@.insert(k@, v));
                Some(old_v)
            },
            None => {
                let mut entries = self.take_entries();
                entries.push((k, v));
                proof {
                    let after = entries@;
                    assert(distinct_keys(after)) by {
                        assert forall|a: int, b: int| 0 <= a < b < after.len() implies (
                        #[trigger] after[a]).0@ != (#[trigger] after[b]).0@ by {
                            if b < before.len() {
                                assert(before[a].0@ != before[b].0@);
                            } else {
                                assert(before[a].0@ != k@);
                            }
                        }
                    }
                    lemma_entries_map(after);
                    assert forall|q: K::V| has_key(after, q) <==> (q == k@ || has_key(
                        before,
                        q,
                    )) by {
                        if has_key(after, q) {
                            let j = index_of(after, q);
                            if j < before.len() {
                                assert(before[j].0@ == q);
                            }
                        }
                        if has_key(before, q) {
                            let j = index_of(before, q);
                            assert(after[j].0@ == q);
                        }
                        if q == k@ {
                            assert(after[before.len() as int].0@ == q);
                        }
                    }
                    assert forall|q: K::V| has_key(after, q) implies entries_map(after)[q]
                        == old(self)@.insert(k@, v)[q] by {
                        let j = index_of(after, q);
                        assert(after[j].0@ == q);
                        if j < before.len() {
                            assert(before[j].0@ == q);
                        }
                    }
                }
                *self = KeyMap { entries };
                assert(self@ =~= old(self)@.insert(k@, v));
                None
            },
        }
    }

    /// Puts `v` under `k` unless a value is there already. Says whether it
    /// was put.
    pub fn insert_if_absent(&mut self, k: K, v: V) -> (put: bool)
        ensures
            put == !old(self)@.contains_key(k@),
            final(self)@ == if put {
                old(self)@.insert(k@, v)
            } else {
                old(self)@
            },
    {
        if self.contains_key(&k) {
            false
        } else {
            self.insert(k, v);
            true
        }
    }

    /// Takes out the value under `k`, if there is one.
    pub fn remove(&mut self, k: &K) -> (r: Option<V>)
        ensures
            final(self)@ == old(self)@.remove(k@),
            match r {
                Some(before) => old(self)@.contains_key(k@) && before == old(self)@[k@],
                None => !old(self)@.contains_key(k@),
            },
    {
        proof {
            use_type_invariant(&*self);
            lemma_entries_map(self.entries@);
        }
        let ghost before = self.entries@;
        match self.position(k) {
            Some(i) => {
                let mut entries = self.take_entries();
                let (_, old_v) = entries.remove(i);
                proof {
                    let after = entries@;
                    assert(after =~= before.remove(i as int));
                    assert forall|a: int| 0 <= a < after.len() implies #[trigger] after[a]
                        == before[if a < i { a } else { a + 1 }] by {}
                    assert(distinct_keys(after)) by {
                        assert forall|a: int, b: int| 0 <= a < b < after.len() implies (
                        #[trigger] after[a]).0@ != (#[trigger] after[b]).0@ by {
                            let a0 = if a < i { a } else { a + 1 };
                            let b0 = if b < i { b } else { b + 1 };
                            assert(before[a0].0@ != before[b0].0@);
                        }
                    }
                    lemma_entries_map(after);
                    assert forall|q: K::V| has_key(after, q) <==> (q != k@ && has_key(
                        before,
                        q,
                    )) by {
                        if has_key(after, q) {
                            let j = index_of(after, q);
                            let j0 = if j < i { j } else { j + 1 };
                            assert(before[j0].0@ == q);
                            if j0 < i {
                                assert(before[j0].0@ != before[i as int].0@);
                            } else {
                                assert(before[i as int].0@ != before[j0].0@);
                            }
                        }
                        if q != k@ && has_key(before, q) {
                            let j = index_of(before, q);
                            let j1 = if j < i { j } else { j - 1 };
                            assert(after[j1].0@ == q);
                        }
                    }
                    assert forall|q: K::V| has_key(after, q) implies entries_map(after)[q]
                        == old(self)@.remove(k@)[q] by {
                        let j = index_of(after, q);
                        let j0 = if j < i { j } else { j + 1 };
                        assert(after[j].0@ == q);
                        assert(before[j0].0@ == q);
                    }
                }
                *self = KeyMap { entries };
                assert(self@ =~= old(self)@.remove(k@));
                Some(old_v)
            },
            None => {
                assert(self@ =~= old(self)@.remove(k@));
                None
            },
        }
    }

    /// Takes everything out.
    pub fn clear(&mut self)
        ensures
            final(self)@ == Map::<K::V, V>::empty(),
    {
        *self = KeyMap { entries: Vec::new() };
        assert(self@ =~= Map::<K::V, V>::empty());
    }

    /// Whether the map holds nothing.
    pub fn is_empty(&self) -> (b: bool)
        ensures
            b == (self@ == Map::<K::V, V>::empty()),
    {
        let b = self.entries.len() == 0;
        proof {
            if b {
                assert(self@ =~= Map::<K::V, V>::empty());
            } else {
                assert(has_key(self.entries@, self.entries@[0].0@));
                assert(self@.contains_key(self.entries@[0].0@));
            }
        }
        b
    }
}

/// A set of keys.
pub struct KeySet<K: Key> {
    members: KeyMap<K, ()>,
}

impl<K: Key> View for KeySet<K> {
    type V = Set<K::V>;

    closed spec fn view(&self) -> Set<K::V> {
        self.members@.dom()
    }
}

impl<K: Key> KeySet<K> {
    /// The set that holds nothing.
    pub fn new() -> (s: Self)
        ensures
            s@ == Set::<K::V>::empty(),
    {
        let s = KeySet { members: KeyMap::new() };
        assert(s@ =~= Set::<K::V>::empty());
        s
    }

    /// Whether `k` is in the set.
    pub fn contains(&self, k: &K) -> (b: bool)
        ensures
            b == self@.contains(k@),
    {
        self.members.contains_key(k)
    }

    /// Puts `k` into the set and says whether it was new.
    pub fn insert(&mut self, k: K) -> (fresh: bool)
        ensures
            final(self)@ == old(self)@.insert(k@),
            fresh == !old(self)@.contains(k@),
    {
        let before = self.members.insert(k, ());
        assert(self@ =~= old(self)@.insert(k@));
        before.is_none()
    }
}

/// The items of a vector, to be taken out one by one from the front.
pub struct Fifo<T> {
    // The items that are left, the next one last.
    reversed: Vec<T>,
}

impl<T> View for Fifo<T> {
    type V = Seq<T>;

    closed spec fn view(&self) -> Seq<T> {
        self.reversed@.reverse()
    }
}

impl<T> Fifo<T> {
    /// The queue of the items of the vector, the first item in front.
    pub fn from_vec(items: Vec<T>) -> (queue: Self)
        ensures
            queue@ == items@,
    {
        let ghost all = items@;
        let mut items = items;
        let mut reversed: Vec<T> = Vec::new();
        loop
            invariant
                reversed@.len() + items@.len() == all.len(),
                items@ == all.take(items@.len() as int),
                forall|i: int|
                    0 <= i < reversed@.len() ==> (#[trigger] reversed@[i]) == all[all.len() - 1
                        - i],
            ensures
                reversed@.len() == all.len(),
                forall|i: int|
                    0 <= i < reversed@.len() ==> (#[trigger] reversed@[i]) == all[all.len() - 1
                        - i],
            decreases items@.len(),
        {
            match items.pop() {
                Some(item) => {
                    reversed.push(item);
                    assert(items@ =~= all.take(items@.len() as int));
                },
                None => {
                    break ;
                },
            }
        }
        let queue = Fifo { reversed };
        assert(queue@ =~= all);
        queue
    }

    /// The number of items that are left.
    pub fn len(&self) -> (n: usize)
        ensures
            n == self@.len(),
    {
        self.reversed.len()
    }

    /// Takes the first item out.
    pub fn pop_front(&mut self) -> (first: T)
        requires
            old(self)@.len() > 0,
        ensures
            first == old(self)@[0],
            final(self)@ == old(self)@.skip(1),
    {
        match self.reversed.pop() {
            Some(first) => {
                assert(self@ =~= old(self)@.skip(1));
                first
            },
            None => vstd::pervasive::unreached(),
        }
    }
}

} // verus!
