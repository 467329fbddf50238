use vstd::prelude::*;
use crate::array::{Array, array_eqv};
use crate::error::Error;
use crate::hashmap::Hashmap;
use crate::jagged::{Jagged, jagged_eqv};
use crate::keyed::{KeyedMap, keys_distinct};
use crate::scalar::Scalar;

verus! {

/// The universal data representation: arguments to components and their
/// results are values.
#[derive(Debug)]
pub enum Value {
    /// An arbitrary-dimensional homogeneously typed array.
    Array(Array),
    /// A hash-map, where the keys are enum-typed and the values are of type Value.
    Hashmap(Hashmap<Value>),
    /// A 2D homogeneously typed matrix, where the columns may be unknown and
    /// the column lengths may be inconsistent.
    Jagged(Jagged),
}

/// A release: the value computed for each node, by node id.
pub type Release = KeyedMap<u32, Value>;

impl Value {
    /// The array that the value holds.
    pub fn array(&self) -> (r: Result<&Array, Error>)
        ensures
            match *self {
                Value::Array(a) => r == Ok::<&Array, Error>(&a),
                _ => r == Err::<&Array, Error>(Error::ValueMustBeArray),
            },
    {
        match self {
            Value::Array(array) => Ok(array),
            _ => Err(Error::ValueMustBeArray),
        }
    }

    /// The jagged matrix that the value holds.
    pub fn jagged(&self) -> (r: Result<&Jagged, Error>)
        ensures
            match *self {
                Value::Jagged(j) => r == Ok::<&Jagged, Error>(&j),
                _ => r == Err::<&Jagged, Error>(Error::ValueMustBeJagged),
            },
    {
        match self {
            Value::Jagged(jagged) => Ok(jagged),
            _ => Err(Error::ValueMustBeJagged),
        }
    }

    /// The single element of the numeric array that the value holds, as
    /// the bit pattern of a double.
    pub fn first_f64(&self) -> (r: Result<u64, Error>)
        ensures
            match *self {
                Value::Array(a) => a.first_f64_result(r),
                _ => r == Err::<u64, Error>(Error::CannotRetrieveFirstFloat),
            },
    {
        match self {
            Value::Array(array) => array.first_f64(),
            _ => Err(Error::CannotRetrieveFirstFloat),
        }
    }

    /// What `first_i64` gives back for the value.
    pub open spec fn spec_first_i64(self) -> Result<i64, Error> {
        match self {
            Value::Array(a) => a.spec_first_i64(),
            _ => Err(Error::CannotRetrieveInteger),
        }
    }

    /// The single element of the boolean or integer array that the value
    /// holds, as an integer.
    pub fn first_i64(&self) -> (r: Result<i64, Error>)
        ensures
            r == self.spec_first_i64(),
    {
        match self {
            Value::Array(array) => array.first_i64(),
            _ => Err(Error::CannotRetrieveInteger),
        }
    }

    /// The single element of the string array that the value holds.
    pub fn first_string(&self) -> (r: Result<String, Error>)
        ensures
            r == match *self {
                Value::Array(a) => a.spec_first_string(),
                _ => Err(Error::CannotRetrieveString),
            },
    {
        match self {
            Value::Array(array) => array.first_string(),
            _ => Err(Error::CannotRetrieveString),
        }
    }

    /// The single element of the boolean array that the value holds.
    pub fn first_bool(&self) -> (r: Result<bool, Error>)
        ensures
            r == match *self {
                Value::Array(a) => a.spec_first_bool(),
                _ => Err(Error::CannotRetrieveBool),
            },
    {
        match self {
            Value::Array(array) => array.first_bool(),
            _ => Err(Error::CannotRetrieveBool),
        }
    }
}

/// Two values with the same content.
pub open spec fn value_eqv(a: Value, b: Value) -> bool
    decreases a, 0nat,
{
    match (a, b) {
        (Value::Array(x), Value::Array(y)) => array_eqv(x, y),
        (Value::Jagged(x), Value::Jagged(y)) => jagged_eqv(x, y),
        (Value::Hashmap(x), Value::Hashmap(y)) => match (x, y) {
            (Hashmap::Bool(m), Hashmap::Bool(n)) => {
                proof {
                    m.lemma_entries_decrease();
                }
                value_entries_eqv(m.entries(), n.entries(), m.entries().len())
            },
            (Hashmap::I64(m), Hashmap::I64(n)) => {
                proof {
                    m.lemma_entries_decrease();
                }
                value_entries_eqv(m.entries(), n.entries(), m.entries().len())
            },
            (Hashmap::Str(m), Hashmap::Str(n)) => {
                proof {
                    m.lemma_entries_decrease();
                }
                value_entries_eqv(m.entries(), n.entries(), m.entries().len())
            },
            _ => false,
        },
        _ => false,
    }
}

/// Two sequences of entries whose first `n` entries have the same keys and
/// equivalent values, and which are equally long.
pub open spec fn value_entries_eqv<K: View>(a: Seq<(K, Value)>, b: Seq<(K, Value)>, n: nat) -> bool
    decreases a, n,
{
    if n == 0 {
        a.len() == b.len()
    } else if n > a.len() {
        false
    } else {
        &&& value_entries_eqv(a, b, (n - 1) as nat)
        &&& a[n - 1].0@ == b[n - 1].0@
        &&& value_eqv(a[n - 1].1, b[n - 1].1)
    }
}

proof fn lemma_value_entries_eqv_intro<K: View>(a: Seq<(K, Value)>, b: Seq<(K, Value)>, n: nat)
    requires
        a.len() == b.len(),
        n <= a.len(),
        forall|i: int|
            0 <= i < n ==> (#[trigger] a[i]).0@ == b[i].0@ && value_eqv(a[i].1, b[i].1),
    ensures
        value_entries_eqv(a, b, n),
    decreases n,
{
    if n > 0 {
        lemma_value_entries_eqv_intro(a, b, (n - 1) as nat);
    }
}

fn clone_value_entries<K: Scalar>(m: &KeyedMap<K, Value>) -> (r: KeyedMap<K, Value>)
    ensures
        value_entries_eqv(r.entries(), m.entries(), r.entries().len()),
    decreases *m, 0nat,
{
    let es = m.as_vec();
    let n = es.len();
    let mut r: Vec<(K, Value)> = Vec::new();
    let mut i: usize = 0;
    proof {
        m.lemma_entries_decrease();
    }
    while i < n
        invariant
            n == es@.len(),
            es@ == m.entries(),
            keys_distinct(es@),
            decreases_to!(*m => m.entries()),
            i <= n,
            r@.len() == i,
            forall|j: int|
                0 <= j < i ==> (#[trigger] r@[j]).0@ == es@[j].0@ && value_eqv(r@[j].1, es@[j].1),
        decreases n - i,
    {
        proof {
            assert(decreases_to!(m.entries() => m.entries()[i as int]));
            assert(decreases_to!(m.entries()[i as int] => m.entries()[i as int].1));
        }
        let k = es[i].0.copied();
        let v = clone_value(&es[i].1);
        r.push((k, v));
        i = i + 1;
    }
    proof {
        assert forall|a: int, b: int| 0 <= a < r@.len() && 0 <= b < r@.len() && a != b implies
            #[trigger] r@[a].0@ != #[trigger] r@[b].0@ by {
            assert(es@[a].0@ != es@[b].0@);
        }
        lemma_value_entries_eqv_intro(r@, es@, n as nat);
    }
    KeyedMap::from_distinct(r)
}

fn clone_value(v: &Value) -> (r: Value)
    ensures
        value_eqv(r, *v),
    decreases *v, 1nat,
{
    match v {
        Value::Array(a) => Value::Array(a.clone()),
        Value::Jagged(j) => Value::Jagged(j.clone()),
        Value::Hashmap(h) => Value::Hashmap(
            match h {
                Hashmap::Bool(m) => Hashmap::Bool(clone_value_entries(m)),
                Hashmap::I64(m) => Hashmap::I64(clone_value_entries(m)),
                Hashmap::Str(m) => Hashmap::Str(clone_value_entries(m)),
            },
        ),
    }
}

impl Clone for Value {
    fn clone(&self) -> (r: Self)
        ensures
            value_eqv(r, *self),
    {
        clone_value(self)
    }
}

} // verus!
