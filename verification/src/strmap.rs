//! Maps kept as a list of entries with distinct keys, compared by their views.

use vstd::prelude::*;
use crate::text::str_eq;

verus! {

/// What can be a key: a type whose values can be compared by their views.
pub trait Key: View + Sized {
    /// Whether both have the same view.
    fn same(&self, other: &Self) -> (r: bool)
        ensures
            r == (self@ == other@),
    ;
}

impl Key for String {
    fn same(&self, other: &Self) -> (r: bool) {
        str_eq(self.as_str(), other.as_str())
    }
}

impl Key for u64 {
    fn same(&self, other: &Self) -> (r: bool) {
        *self == *other
    }
}

/// A map from keys to values. Entries keep the order in which their keys were
/// first inserted.
pub struct KeyMap<K: Key, V> {
    entries: Vec<(K, V)>,
}

/// A map from texts to values.
pub type StrMap<V> = KeyMap<String, V>;

/// Whether some entry has the key `k`.
pub closed spec fn has_key<K: Key, V>(entries: Seq<(K, V)>, k: K::V) -> bool {
    exists|i: int| 0 <= i < entries.len() && (#[trigger] entries[i]).0@ == k
}

/// A position whose entry has the key `k`.
pub closed spec fn key_index<K: Key, V>(entries: Seq<(K, V)>, k: K::V) -> int {
    choose|i: int| 0 <= i < entries.len() && (#[trigger] entries[i]).0@ == k
}

/// Whether no key occurs twice.
pub closed spec fn distinct<K: Key, V>(entries: Seq<(K, V)>) -> bool {
    forall|i: int, j: int|
        0 <= i < entries.len() && 0 <= j < entries.len() && i != j ==> (#[trigger] entries[i]).0@ != (
        #[trigger] entries[j]).0@
}

/// The map that a list of entries stands for.
pub closed spec fn as_map<K: Key, V>(entries: Seq<(K, V)>) -> Map<K::V, V> {
    Map::new(|k: K::V| has_key(entries, k), |k: K::V| entries[key_index(entries, k)].1)
}

proof fn lemma_entry<K: Key, V>(entries: Seq<(K, V)>, i: int)
    requires
        distinct(entries),
        0 <= i < entries.len(),
    ensures
        as_map(entries).contains_key(entries[i].0@),
        as_map(entries)[entries[i].0@] == entries[i].1,
{
    let k = entries[i].0@;
    assert(has_key(entries, k));
    let j = key_index(entries, k);
    assert(0 <= j < entries.len() && entries[j].0@ == k);
}

proof fn lemma_absent<K: Key, V>(entries: Seq<(K, V)>, k: K::V)
    requires
        forall|i: int| 0 <= i < entries.len() ==> (#[trigger] entries[i]).0@ != k,
    ensures
        !as_map(entries).contains_key(k),
{
}

proof fn lemma_push<K: Key, V>(entries: Seq<(K, V)>, key: K, v: V)
    requires
        distinct(entries),
        !as_map(entries).contains_key(key@),
    ensures
        distinct(entries.push((key, v))),
        as_map(entries.push((key, v))) == as_map(entries).insert(key@, v),
{
    let next = entries.push((key, v));
    assert forall|i: int| 0 <= i < entries.len() implies (#[trigger] entries[i]).0@ != key@ by {
        lemma_entry(entries, i);
    }
    assert forall|i: int, j: int|
        0 <= i < next.len() && 0 <= j < next.len() && i != j implies (#[trigger] next[i]).0@ != (
    #[trigger] next[j]).0@ by {
        if i < entries.len() {
            assert(next[i] == entries[i]);
        }
        if j < entries.len() {
            assert(next[j] == entries[j]);
        }
    }
    assert forall|k: K::V| as_map(next).contains_key(k) <==> as_map(entries).insert(
        key@,
        v,
    ).contains_key(k) by {
        if has_key(next, k) {
            let i = key_index(next, k);
            if i < entries.len() {
                assert(entries[i].0@ == k);
            }
        }
        if has_key(entries, k) {
            let i = key_index(entries, k);
            assert(next[i].0@ == k);
        }
        if k == key@ {
            assert(next[entries.len() as int].0@ == k);
        }
    }
    assert forall|k: K::V| as_map(next).contains_key(k) implies as_map(next)[k] == as_map(
        entries,
    ).insert(key@, v)[k] by {
        let i = key_index(next, k);
        lemma_entry(next, i);
        if i < entries.len() {
            assert(next[i] == entries[i]);
            lemma_entry(entries, i);
        }
    }
    assert(as_map(next) =~= as_map(entries).insert(key@, v));
}

proof fn lemma_update<K: Key, V>(entries: Seq<(K, V)>, i: int, key: K, v: V)
    requires
        distinct(entries),
        0 <= i < entries.len(),
        key@ == entries[i].0@,
    ensures
        distinct(entries.update(i, (key, v))),
        as_map(entries.update(i, (key, v))) == as_map(entries).insert(key@, v),
{
    let next = entries.update(i, (key, v));
    assert forall|a: int| 0 <= a < next.len() implies (#[trigger] next[a]).0@ == entries[a].0@ by {}
    assert(distinct(next));
    assert forall|k: K::V| as_map(next).contains_key(k) <==> as_map(entries).insert(
        key@,
        v,
    ).contains_key(k) by {
        if has_key(next, k) {
            let a = key_index(next, k);
            assert(entries[a].0@ == k);
        }
        if has_key(entries, k) {
            let a = key_index(entries, k);
            assert(next[a].0@ == k);
        }
        if k == key@ {
            assert(next[i].0@ == k);
        }
    }
    assert forall|k: K::V| as_map(next).contains_key(k) implies as_map(next)[k] == as_map(
        entries,
    ).insert(key@, v)[k] by {
        let a = key_index(next, k);
        lemma_entry(next, a);
        lemma_entry(entries, a);
    }
    assert(as_map(next) =~= as_map(entries).insert(key@, v));
}

proof fn lemma_remove<K: Key, V>(entries: Seq<(K, V)>, i: int)
    requires
        distinct(entries),
        0 <= i < entries.len(),
    ensures
        distinct(entries.remove(i)),
        as_map(entries.remove(i)) == as_map(entries).remove(entries[i].0@),
{
    let next = entries.remove(i);
    let gone = entries[i].0@;
    assert forall|a: int| 0 <= a < next.len() implies (#[trigger] next[a]) == entries[if a < i {
        a
    } else {
        a + 1
    }] by {}
    assert(distinct(next));
    assert forall|k: K::V| as_map(next).contains_key(k) <==> as_map(entries).remove(
        gone,
    ).contains_key(k) by {
        if has_key(next, k) {
            let a = key_index(next, k);
            let b = if a < i {
                a
            } else {
                a + 1
            };
            assert(entries[b].0@ == k);
        }
        if has_key(entries, k) && k != gone {
            let b = key_index(entries, k);
            let a = if b < i {
                b
            } else {
                b - 1
            };
            assert(next[a].0@ == k);
        }
    }
    assert forall|k: K::V| as_map(next).contains_key(k) implies as_map(next)[k] == as_map(
        entries,
    ).remove(gone)[k] by {
        let a = key_index(next, k);
        let b = if a < i {
            a
        } else {
            a + 1
        };
        lemma_entry(next, a);
        lemma_entry(entries, b);
    }
    assert(as_map(next) =~= as_map(entries).remove(gone));
}

/// The part of `m` whose entries satisfy `p`.
pub open spec fn kept<A, V>(m: Map<A, V>, p: spec_fn(A, V) -> bool) -> Map<A, V> {
    Map::new(|k: A| m.contains_key(k) && p(k, m[k]), |k: A| m[k])
}

impl<K: Key, V> View for KeyMap<K, V> {
    type V = Map<K::V, V>;

    closed spec fn view(&self) -> Map<K::V, V> {
        as_map(self.entries@)
    }
}

impl<K: Key, V> KeyMap<K, V> {
    #[verifier::type_invariant]
    spec fn well_formed(self) -> bool {
        distinct(self.entries@)
    }

    /// The entries in order.
    pub closed spec fn list(&self) -> Seq<(K, V)> {
        self.entries@
    }

    /// The empty map.
    pub fn new() -> (r: Self)
        ensures
            r@ == Map::<K::V, V>::empty(),
    {
        let r = KeyMap { entries: Vec::new() };
        assert(r@ =~= Map::<K::V, V>::empty());
        r
    }

    /// The position of the entry with the key `k`, or the number of entries.
    fn position(&self, k: &K) -> (r: usize)
        ensures
            r <= self.entries@.len(),
            r < self.entries@.len() ==> self.entries@[r as int].0@ == k@,
            r < self.entries@.len() <==> self@.contains_key(k@),
            r < self.entries@.len() ==> self@[k@] == self.entries@[r as int].1,
    {
        proof {
            use_type_invariant(self);
        }
        let mut i: usize = 0;
        while i < self.entries.len()
            invariant
                i <= self.entries@.len(),
                distinct(self.entries@),
                forall|j: int| 0 <= j < i ==> (#[trigger] self.entries@[j]).0@ != k@,
            decreases self.entries@.len() - i,
        {
            if self.entries[i].0.same(k) {
                proof {
                    lemma_entry(self.entries@, i as int);
                }
                return i;
            }
            i += 1;
        }
        proof {
            lemma_absent(self.entries@, k@);
        }
        i
    }

    /// Whether the key `k` is present.
    pub fn contains_key(&self, k: &K) -> (r: bool)
        ensures
            r == self@.contains_key(k@),
    {
        self.position(k) < self.entries.len()
    }

    /// The value of the key `k`.
    pub fn get(&self, k: &K) -> (r: Option<&V>)
        ensures
            r == (if self@.contains_key(k@) {
                Some(&self@[k@])
            } else {
                None
            }),
    {
        let i: usize = self.position(k);
        if i < self.entries.len() {
            Some(&self.entries[i].1)
        } else {
            None
        }
    }

    /// Gives the key `k` the value `v`.
    pub fn insert(&mut self, k: K, v: V)
        ensures
            final(self)@ == old(self)@.insert(k@, v),
    {
        proof {
            use_type_invariant(&*self);
        }
        let i: usize = self.position(&k);
        let mut entries: Vec<(K, V)> = Vec::new();
        std::mem::swap(&mut entries, &mut self.entries);
        if i < entries.len() {
            proof {
                lemma_update(entries@, i as int, k, v);
            }
            entries.set(i, (k, v));
        } else {
            proof {
                lemma_push(entries@, k, v);
            }
            entries.push((k, v));
        }
        self.entries = entries;
    }

    /// Takes the key `k` out and hands back its value.
    pub fn remove(&mut self, k: &K) -> (r: Option<V>)
        ensures
            final(self)@ == old(self)@.remove(k@),
            r == (if old(self)@.contains_key(k@) {
                Some(old(self)@[k@])
            } else {
                None
            }),
    {
        proof {
            use_type_invariant(&*self);
        }
        let i: usize = self.position(k);
        if i < self.entries.len() {
            let mut entries: Vec<(K, V)> = Vec::new();
            std::mem::swap(&mut entries, &mut self.entries);
            proof {
                lemma_remove(entries@, i as int);
            }
            let (_, v) = entries.remove(i);
            self.entries = entries;
            Some(v)
        } else {
            assert(self@.remove(k@) =~= self@);
            None
        }
    }

    /// Drops the entries that do not satisfy `keep`, which decides `p`.
    pub(crate) fn retain<F: Fn(&K, &V) -> bool>(&mut self, keep: F, Ghost(p): Ghost<
        spec_fn(K::V, V) -> bool,
    >)
        requires
            forall|k: &K, v: &V| call_requires(keep, (k, v)),
            forall|k: &K, v: &V, b: bool| call_ensures(keep, (k, v), b) ==> b == p(k@, *v),
        ensures
            final(self)@ == kept(old(self)@, p),
    {
        proof {
            use_type_invariant(&*self);
        }
        let ghost before = self@;
        let mut entries: Vec<(K, V)> = Vec::new();
        std::mem::swap(&mut entries, &mut self.entries);
        let mut i: usize = 0;
        while i < entries.len()
            invariant
                i <= entries@.len(),
                distinct(entries@),
                as_map(entries@).submap_of(before),
                forall|k: K::V| #[trigger] before.contains_key(k) && p(k, before[k]) ==> as_map(
                    entries@,
                ).contains_key(k),
                forall|j: int| 0 <= j < i ==> p((#[trigger] entries@[j]).0@, entries@[j].1),
                forall|k: &K, v: &V| call_requires(keep, (k, v)),
                forall|k: &K, v: &V, b: bool| call_ensures(keep, (k, v), b) ==> b == p(k@, *v),
            decreases entries@.len() - i,
        {
            if keep(&entries[i].0, &entries[i].1) {
                i += 1;
            } else {
                proof {
                    lemma_entry(entries@, i as int);
                    lemma_remove(entries@, i as int);
                }
                let ghost previous = entries@;
                entries.remove(i);
                assert(as_map(entries@).submap_of(before));
                assert forall|j: int| 0 <= j < i implies p((#[trigger] entries@[j]).0@, entries@[j].1) by {
                    assert(entries@[j] == previous[j]);
                }
            }
        }
        assert forall|k: K::V| as_map(entries@).contains_key(k) implies p(k, before[k]) by {
            assert(has_key(entries@, k));
            let a = key_index(entries@, k);
            lemma_entry(entries@, a);
            assert(entries@[a].0@ == k);
            assert(before.dom().contains(k));
        }
        assert(as_map(entries@) =~= kept(before, p));
        self.entries = entries;
    }

    /// The number of entries. The list holds each key once, and what the map maps.
    pub fn len(&self) -> (r: usize)
        ensures
            r == self.list().len(),
            forall|i: int| 0 <= i < self.list().len() ==> self@.contains_key(
                (#[trigger] self.list()[i]).0@,
            ) && self@[self.list()[i].0@] == self.list()[i].1,
            forall|k: K::V| #[trigger] self@.contains_key(k) ==> exists|i: int|
                0 <= i < self.list().len() && (#[trigger] self.list()[i]).0@ == k,
            forall|i: int, j: int|
                0 <= i < self.list().len() && 0 <= j < self.list().len() && i != j ==> (
                #[trigger] self.list()[i]).0@ != (#[trigger] self.list()[j]).0@,
    {
        proof {
            use_type_invariant(self);
            assert forall|i: int| 0 <= i < self.list().len() implies self@.contains_key(
                (#[trigger] self.list()[i]).0@,
            ) && self@[self.list()[i].0@] == self.list()[i].1 by {
                lemma_entry(self.entries@, i);
            }
            assert forall|k: K::V| #[trigger] self@.contains_key(k) implies exists|i: int|
                0 <= i < self.list().len() && (#[trigger] self.list()[i]).0@ == k by {
                let i = key_index(self.entries@, k);
                assert(self.list()[i].0@ == k);
            }
        }
        self.entries.len()
    }

    /// The entry at position `i`.
    pub fn entry(&self, i: usize) -> (r: (&K, &V))
        requires
            i < self.list().len(),
        ensures
            *r.0 == self.list()[i as int].0,
            *r.1 == self.list()[i as int].1,
    {
        (&self.entries[i].0, &self.entries[i].1)
    }
}

} // verus!
