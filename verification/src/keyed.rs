use vstd::prelude::*;
use crate::scalar::Scalar;

verus! {

/// No two entries have the same key.
pub open spec fn keys_distinct<K: View, V>(s: Seq<(K, V)>) -> bool {
    forall|i: int, j: int|
        0 <= i < s.len() && 0 <= j < s.len() && i != j ==> #[trigger] s[i].0@ != #[trigger] s[j].0@
}

/// Some entry has the key `k`.
pub open spec fn has_key<K: View, V>(s: Seq<(K, V)>, k: K::V) -> bool {
    exists|i: int| 0 <= i < s.len() && #[trigger] s[i].0@ == k
}

/// The position of an entry whose key is `k` (the only one, where keys are distinct).
pub open spec fn key_position<K: View, V>(s: Seq<(K, V)>, k: K::V) -> int {
    choose|i: int| 0 <= i < s.len() && #[trigger] s[i].0@ == k
}

/// The value stored under `k`.
pub open spec fn value_at<K: View, V>(s: Seq<(K, V)>, k: K::V) -> V {
    s[key_position(s, k)].1
}

/// The keys of the entries, by view, in order.
pub open spec fn key_views<K: View, V>(s: Seq<(K, V)>) -> Seq<K::V> {
    s.map_values(|e: (K, V)| e.0@)
}

/// The values of the entries, in order.
pub open spec fn entry_values<K, V>(s: Seq<(K, V)>) -> Seq<V> {
    s.map_values(|e: (K, V)| e.1)
}

/// In distinct keys, the entry found for a key is the one at its position.
pub proof fn lemma_key_position<K: View, V>(s: Seq<(K, V)>, i: int)
    requires
        keys_distinct(s),
        0 <= i < s.len(),
    ensures
        has_key(s, s[i].0@),
        key_position(s, s[i].0@) == i,
        value_at(s, s[i].0@) == s[i].1,
{
    assert(s[i].0@ == s[i].0@);
}

/// The entries after storing `v` under `k`: an entry with key `k` keeps its
/// place and its key and gets the new value; otherwise the new entry comes last.
pub open spec fn inserted<K: View, V>(s: Seq<(K, V)>, k: K, v: V) -> Seq<(K, V)> {
    if has_key(s, k@) {
        s.update(key_position(s, k@), (s[key_position(s, k@)].0, v))
    } else {
        s.push((k, v))
    }
}

/// Storing a value under a key keeps the keys distinct; afterwards the key
/// is present with that value, and every other key is present exactly where
/// it was before, with the value it had.
pub proof fn lemma_insert_then_get<K: View, V>(s: Seq<(K, V)>, k: K, v: V, other: K::V)
    requires
        keys_distinct(s),
    ensures
        keys_distinct(inserted(s, k, v)),
        has_key(inserted(s, k, v), k@),
        value_at(inserted(s, k, v), k@) == v,
        other != k@ ==> (has_key(inserted(s, k, v), other) <==> has_key(s, other)),
        other != k@ && has_key(s, other) ==> value_at(inserted(s, k, v), other) == value_at(
            s,
            other,
        ),
{
    let t = inserted(s, k, v);
    if has_key(s, k@) {
        let p = key_position(s, k@);
        assert forall|a: int, b: int| 0 <= a < t.len() && 0 <= b < t.len() && a != b implies
            #[trigger] t[a].0@ != #[trigger] t[b].0@ by {
            assert(t[a].0 == s[a].0);
            assert(t[b].0 == s[b].0);
        }
        lemma_key_position(t, p);
        if has_key(s, other) && other != k@ {
            let q = key_position(s, other);
            assert(t[q] == s[q]);
            lemma_key_position(t, q);
        }
        if has_key(t, other) && other != k@ {
            let q = key_position(t, other);
            assert(t[q].0 == s[q].0);
        }
    } else {
        assert forall|a: int, b: int| 0 <= a < t.len() && 0 <= b < t.len() && a != b implies
            #[trigger] t[a].0@ != #[trigger] t[b].0@ by {
            if a < s.len() && b < s.len() {
                assert(t[a] == s[a]);
                assert(t[b] == s[b]);
            } else if a < s.len() {
                assert(t[a] == s[a]);
                assert(!(s[a].0@ == k@));
            } else {
                assert(t[b] == s[b]);
                assert(!(s[b].0@ == k@));
            }
        }
        lemma_key_position(t, s.len() as int);
        if has_key(s, other) && other != k@ {
            let q = key_position(s, other);
            assert(t[q] == s[q]);
            lemma_key_position(t, q);
        }
        if has_key(t, other) && other != k@ {
            let q = key_position(t, other);
            if q < s.len() {
                assert(t[q] == s[q]);
            }
        }
    }
}

/// A map from keys to values that keeps its entries in the order in which
/// their keys were first inserted; no key occurs twice.
#[derive(Debug)]
pub struct KeyedMap<K: Scalar, V> {
    entries: Vec<(K, V)>,
}

impl<K: Scalar, V> KeyedMap<K, V> {
    #[verifier::type_invariant]
    spec fn inv(self) -> bool {
        keys_distinct(self.entries@)
    }

    /// The entries of the map, in order.
    pub closed spec fn entries(self) -> Seq<(K, V)> {
        self.entries@
    }

    /// The entries of a map are smaller than the map.
    pub proof fn lemma_entries_decrease(self)
        ensures
            decreases_to!(self => self.entries()),
    {
        assert(decreases_to!(self => self.entries));
        assert(decreases_to!(self.entries => self.entries@));
    }

    /// An empty map.
    pub fn new() -> (m: Self)
        ensures
            m.entries() == Seq::<(K, V)>::empty(),
    {
        KeyedMap { entries: Vec::new() }
    }

    /// A map with the given entries, whose keys are distinct.
    pub(crate) fn from_distinct(entries: Vec<(K, V)>) -> (m: Self)
        requires
            keys_distinct(entries@),
        ensures
            m.entries() == entries@,
    {
        KeyedMap { entries }
    }

    /// The number of entries.
    pub fn len(&self) -> (n: usize)
        ensures
            n == self.entries().len(),
    {
        self.entries.len()
    }

    /// The entries, in order.
    pub fn as_vec(&self) -> (r: &Vec<(K, V)>)
        ensures
            r@ == self.entries(),
            keys_distinct(r@),
    {
        proof {
            use_type_invariant(self);
        }
        &self.entries
    }

    /// The entries, in order, taken out of the map.
    pub fn into_vec(self) -> (r: Vec<(K, V)>)
        ensures
            r@ == self.entries(),
            keys_distinct(r@),
    {
        proof {
            use_type_invariant(&self);
        }
        self.entries
    }

    /// The position of the entry with key `k`, if there is one.
    pub fn position(&self, k: &K) -> (r: Option<usize>)
        ensures
            r is Some <==> has_key(self.entries(), k@),
            r matches Some(i) ==> i < self.entries().len() && i == key_position(self.entries(), k@)
                && self.entries()[i as int].0@ == k@,
    {
        proof {
            use_type_invariant(self);
        }
        let n = self.entries.len();
        let mut i: usize = 0;
        while i < n
            invariant
                n == self.entries@.len(),
                keys_distinct(self.entries@),
                i <= n,
                forall|j: int| 0 <= j < i ==> #[trigger] self.entries@[j].0@ != k@,
            decreases n - i,
        {
            if self.entries[i].0.same(k) {
                proof {
                    lemma_key_position(self.entries@, i as int);
                }
                return Some(i);
            }
            i = i + 1;
        }
        None
    }

    /// The value stored under `k`, if any.
    pub fn get(&self, k: &K) -> (r: Option<&V>)
        ensures
            r is Some <==> has_key(self.entries(), k@),
            r matches Some(v) ==> *v == value_at(self.entries(), k@),
    {
        match self.position(k) {
            Some(i) => Some(&self.entries[i].1),
            None => None,
        }
    }

    /// Whether some entry has the key `k`.
    pub fn contains_key(&self, k: &K) -> (r: bool)
        ensures
            r == has_key(self.entries(), k@),
    {
        self.position(k).is_some()
    }

    /// Stores `v` under `k`: an entry with key `k` keeps its place and gets
    /// the new value; otherwise a new entry is added at the end.
    pub fn insert(&mut self, k: K, v: V)
        ensures
            final(self).entries() == inserted(old(self).entries(), k, v),
    {
        proof {
            use_type_invariant(&*self);
        }
        match self.position(&k) {
            Some(i) => {
                let ghost old_entries = self.entries@;
                let mut entries = Vec::new();
                std::mem::swap(&mut entries, &mut self.entries);
                let (old_k, _old_v) = entries.remove(i);
                entries.insert(i, (old_k, v));
                proof {
                    assert(entries@ =~= old_entries.update(i as int, (old_entries[i as int].0, v)));
                    assert forall|a: int, b: int|
                        0 <= a < entries@.len() && 0 <= b < entries@.len() && a != b implies
                        #[trigger] entries@[a].0@ != #[trigger] entries@[b].0@ by {
                        assert(entries@[a].0 == old_entries[a].0);
                        assert(entries@[b].0 == old_entries[b].0);
                    }
                }
                self.entries = entries;
            },
            None => {
                let ghost old_entries = self.entries@;
                let mut entries = Vec::new();
                std::mem::swap(&mut entries, &mut self.entries);
                entries.push((k, v));
                proof {
                    assert forall|a: int, b: int|
                        0 <= a < entries@.len() && 0 <= b < entries@.len() && a != b implies
                        #[trigger] entries@[a].0@ != #[trigger] entries@[b].0@ by {
                        if a < old_entries.len() && b < old_entries.len() {
                            assert(entries@[a] == old_entries[a]);
                            assert(entries@[b] == old_entries[b]);
                        } else if a < old_entries.len() {
                            assert(entries@[a] == old_entries[a]);
                        } else {
                            assert(entries@[b] == old_entries[b]);
                        }
                    }
                }
                self.entries = entries;
            },
        }
    }
}

} // verus!
