use vstd::prelude::*;
use crate::keyed::{KeyedMap, keys_distinct, key_views, entry_values};
use crate::scalar::Scalar;

verus! {

/// The type of the keys of a [`Hashmap`].
#[derive(Debug, Clone, Copy, PartialEq, Eq)]
pub enum KeyType {
    Bool,
    I64,
    Str,
}

/// A key of a [`Hashmap`], by view.
pub enum HashmapKey {
    Bool(bool),
    I64(i64),
    Str(Seq<char>),
}

/// The universal hash-map representation: values under keys of one of three
/// types, in the order in which their keys were first inserted.
#[derive(Debug)]
pub enum Hashmap<T> {
    Bool(KeyedMap<bool, T>),
    I64(KeyedMap<i64, T>),
    Str(KeyedMap<String, T>),
}

/// The entries of `es` up to the number of `vs`, each with the matching value of `vs`.
pub open spec fn zip_values<K, T>(es: Seq<(K, T)>, vs: Seq<T>) -> Seq<(K, T)> {
    Seq::new(
        if es.len() <= vs.len() {
            es.len()
        } else {
            vs.len()
        },
        |i: int| (es[i].0, vs[i]),
    )
}

fn values_of<K: Scalar, T>(m: &KeyedMap<K, T>) -> (r: Vec<&T>)
    ensures
        r@.len() == m.entries().len(),
        forall|i: int| 0 <= i < r@.len() ==> *r@[i] == m.entries()[i].1,
{
    let es = m.as_vec();
    let n = es.len();
    let mut r: Vec<&T> = Vec::new();
    let mut i: usize = 0;
    while i < n
        invariant
            n == es@.len(),
            es@ == m.entries(),
            i <= n,
            r@.len() == i,
            forall|j: int| 0 <= j < i ==> *r@[j] == es@[j].1,
        decreases n - i,
    {
        r.push(&es[i].1);
        i = i + 1;
    }
    r
}

fn with_values<K: Scalar, T>(m: &KeyedMap<K, T>, values: Vec<T>) -> (r: KeyedMap<K, T>)
    ensures
        r.entries().len() == zip_values(m.entries(), values@).len(),
        key_views(r.entries()) == key_views(m.entries()).take(r.entries().len() as int),
        entry_values(r.entries()) == values@.take(r.entries().len() as int),
{
    let es = m.as_vec();
    let n = if es.len() <= values.len() {
        es.len()
    } else {
        values.len()
    };
    let ghost given = values@;
    let mut vals = values;
    vals.truncate(n);
    assert(vals@ =~= given.take(n as int));
    // Take the values from the back, each with its key.
    let mut reversed: Vec<(K, T)> = Vec::new();
    let mut i: usize = n;
    while i > 0
        invariant
            es@ == m.entries(),
            n <= es@.len(),
            n <= given.len(),
            i <= n,
            vals@ == given.take(i as int),
            reversed@.len() == n - i,
            forall|j: int|
                0 <= j < n - i ==> (#[trigger] reversed@[j]).0@ == es@[n - 1 - j].0@
                    && reversed@[j].1 == given[n - 1 - j],
        decreases i,
    {
        let v = vals.pop().unwrap();
        assert(vals@ =~= given.take(i - 1));
        reversed.push((es[i - 1].0.copied(), v));
        i = i - 1;
    }
    // Put them back in order.
    let mut r: Vec<(K, T)> = Vec::new();
    let mut k: usize = 0;
    while k < n
        invariant
            es@ == m.entries(),
            n <= es@.len(),
            n <= given.len(),
            k <= n,
            reversed@.len() == n - k,
            r@.len() == k,
            forall|j: int|
                0 <= j < n - k ==> (#[trigger] reversed@[j]).0@ == es@[n - 1 - j].0@
                    && reversed@[j].1 == given[n - 1 - j],
            forall|j: int|
                0 <= j < k ==> (#[trigger] r@[j]).0@ == es@[j].0@ && r@[j].1 == given[j],
        decreases n - k,
    {
        let e = reversed.pop().unwrap();
        r.push(e);
        k = k + 1;
    }
    let ghost rs = r@;
    assert(key_views(rs) =~= key_views(es@).take(n as int));
    assert(entry_values(rs) =~= given.take(n as int));
    assert forall|a: int, b: int| 0 <= a < rs.len() && 0 <= b < rs.len() && a != b implies
        #[trigger] rs[a].0@ != #[trigger] rs[b].0@ by {
        assert(es@[a].0@ != es@[b].0@);
    }
    KeyedMap::from_distinct(r)
}

proof fn lemma_with_values<K: View, T>(r: Seq<(K, T)>, e: Seq<(K, T)>, vs: Seq<T>)
    requires
        r.len() == zip_values(e, vs).len(),
        key_views(r) == key_views(e).take(r.len() as int),
        entry_values(r) == vs.take(r.len() as int),
    ensures
        forall|i: int| 0 <= i < r.len() ==> (#[trigger] r[i]).0@ == e[i].0@ && r[i].1 == vs[i],
{
    assert forall|i: int| 0 <= i < r.len() implies (#[trigger] r[i]).0@ == e[i].0@ && r[i].1
        == vs[i] by {
        assert(r.len() <= e.len() && r.len() <= vs.len());
        assert(key_views(r)[i] == key_views(e).take(r.len() as int)[i]);
        assert(key_views(r)[i] == r[i].0@);
        assert(key_views(e)[i] == e[i].0@);
        assert(entry_values(r)[i] == vs.take(r.len() as int)[i]);
        assert(entry_values(r)[i] == r[i].1);
    }
}

impl<T> Hashmap<T> {
    /// The entries, with their keys by view, in order.
    pub open spec fn spec_entries(self) -> Seq<(HashmapKey, T)> {
        match self {
            Hashmap::Bool(m) => m.entries().map_values(|e: (bool, T)| (HashmapKey::Bool(e.0), e.1)),
            Hashmap::I64(m) => m.entries().map_values(|e: (i64, T)| (HashmapKey::I64(e.0), e.1)),
            Hashmap::Str(m) => m.entries().map_values(
                |e: (String, T)| (HashmapKey::Str(e.0@), e.1),
            ),
        }
    }

    /// The type of the keys.
    pub open spec fn key_type(self) -> KeyType {
        match self {
            Hashmap::Bool(_) => KeyType::Bool,
            Hashmap::I64(_) => KeyType::I64,
            Hashmap::Str(_) => KeyType::Str,
        }
    }

    /// The number of keys.
    pub fn keys_length(&self) -> (r: i64)
        ensures
            r == self.spec_entries().len() as i64,
    {
        match self {
            Hashmap::Bool(value) => value.len() as i64,
            Hashmap::I64(value) => value.len() as i64,
            Hashmap::Str(value) => value.len() as i64,
        }
    }

    /// The values, in the order of their entries.
    pub fn values(&self) -> (r: Vec<&T>)
        ensures
            r@.len() == self.spec_entries().len(),
            forall|i: int| 0 <= i < r@.len() ==> *r@[i] == self.spec_entries()[i].1,
    {
        match self {
            Hashmap::Bool(value) => values_of(value),
            Hashmap::I64(value) => values_of(value),
            Hashmap::Str(value) => values_of(value),
        }
    }

    /// A map with the same keys, in order, under the given values: the
    /// first key gets the first value, and so on, as far as both reach.
    pub fn from_values(&self, values: Vec<T>) -> (r: Hashmap<T>)
        ensures
            r.key_type() == self.key_type(),
            r.spec_entries() == zip_values(self.spec_entries(), values@),
    {
        match self {
            Hashmap::Bool(value) => {
                let ghost vs = values@;
                let m = with_values(value, values);
                proof {
                    lemma_with_values(m.entries(), value.entries(), vs);
                }
                let r = Hashmap::Bool(m);
                assert(r.spec_entries() =~= zip_values(self.spec_entries(), values@));
                r
            },
            Hashmap::I64(value) => {
                let ghost vs = values@;
                let m = with_values(value, values);
                proof {
                    lemma_with_values(m.entries(), value.entries(), vs);
                }
                let r = Hashmap::I64(m);
                assert(r.spec_entries() =~= zip_values(self.spec_entries(), values@));
                r
            },
            Hashmap::Str(value) => {
                let ghost vs = values@;
                let m = with_values(value, values);
                proof {
                    lemma_with_values(m.entries(), value.entries(), vs);
                }
                let r = Hashmap::Str(m);
                assert(r.spec_entries() =~= zip_values(self.spec_entries(), values@));
                r
            },
        }
    }
}

/// The keys of the entries, in order.
pub open spec fn hashmap_keys<T>(es: Seq<(HashmapKey, T)>) -> Seq<HashmapKey> {
    es.map_values(|e: (HashmapKey, T)| e.0)
}

/// A map rebuilt from values has as many entries as there are keys and
/// values both; its keys are the first keys of the map, in order, and its
/// values are the given values, in order.
pub proof fn lemma_from_values<T>(es: Seq<(HashmapKey, T)>, vs: Seq<T>)
    ensures
        zip_values(es, vs).len() == if es.len() <= vs.len() {
            es.len()
        } else {
            vs.len()
        },
        hashmap_keys(zip_values(es, vs)) == hashmap_keys(es).take(zip_values(es, vs).len() as int),
        entry_values(zip_values(es, vs)) == vs.take(zip_values(es, vs).len() as int),
{
    let z = zip_values(es, vs);
    assert(hashmap_keys(z) =~= hashmap_keys(es).take(z.len() as int));
    assert(entry_values(z) =~= vs.take(z.len() as int));
}

/// Rebuilding a map from its own values gives back the same entries.
pub proof fn lemma_from_own_values<T>(h: Hashmap<T>)
    ensures
        zip_values(h.spec_entries(), entry_values(h.spec_entries())) == h.spec_entries(),
{
    let es = h.spec_entries();
    assert(zip_values(es, entry_values(es)) =~= es);
}

} // verus!
