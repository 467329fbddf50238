use vstd::prelude::*;
use crate::error::{ArgumentName, Error};
use crate::keyed::{KeyedMap, has_key, value_at, key_views};
use crate::properties::{ArrayProperties, NodeProperties, ValueProperties};
use crate::value::Value;

pub mod count;
pub mod materialize;
pub mod minimum;
pub mod partition;
pub mod sum;

verus! {

/// The public arguments of a node, by name.
pub type PublicArguments = KeyedMap<String, Value>;

/// The key of an argument.
pub open spec fn argument_key(name: ArgumentName) -> Seq<char> {
    match name {
        ArgumentName::Data => "data"@,
        ArgumentName::By => "by"@,
    }
}

fn key_of(name: ArgumentName) -> (r: String)
    ensures
        r@ == argument_key(name),
{
    match name {
        ArgumentName::Data => "data".to_string(),
        ArgumentName::By => "by".to_string(),
    }
}

/// The array properties of the argument `name`: an error where the
/// argument is missing or is not an array.
pub open spec fn array_argument(properties: NodeProperties, name: ArgumentName) -> Result<
    ArrayProperties,
    Error,
> {
    if !has_key(properties.entries(), argument_key(name)) {
        Err(Error::MissingArgument(name))
    } else {
        match value_at(properties.entries(), argument_key(name)) {
            ValueProperties::Array(a) => Ok(a),
            _ => Err(Error::InArgument(name, Box::new(Error::PropertiesMustBeArray))),
        }
    }
}

/// A reference result that matches a value result: the same value, or the same error.
pub open spec fn ref_result<T>(r: Result<&T, Error>, s: Result<T, Error>) -> bool {
    match s {
        Ok(a) => r matches Ok(x) && *x == a,
        Err(e) => r == Err::<&T, Error>(e),
    }
}

/// The array properties of the argument `name`.
pub fn get_array_argument<'a>(properties: &'a NodeProperties, name: ArgumentName) -> (r: Result<
    &'a ArrayProperties,
    Error,
>)
    ensures
        ref_result(r, array_argument(*properties, name)),
{
    let key = key_of(name);
    match properties.get(&key) {
        Some(p) => match p.array() {
            Ok(a) => Ok(a),
            Err(e) => Err(crate::error::prepend(name, e)),
        },
        None => Err(Error::MissingArgument(name)),
    }
}

/// How the sensitivity of each column follows from its bounds.
#[derive(Debug, Clone, Copy, PartialEq, Eq)]
pub enum RowSensitivity {
    /// `max - min`
    Range,
    /// `max(|min|, |max|)`
    MaxAbs,
    /// `max(min², max²)`
    MaxSquare,
    /// `(max - min)²`
    RangeSquared,
}

/// The bounds of each column (as IEEE-754 bit patterns) and how the
/// sensitivity of a column follows from them.
#[derive(Debug)]
pub struct SensitivityBounds {
    pub formula: RowSensitivity,
    pub min: Vec<u64>,
    pub max: Vec<u64>,
}

/// A bounds result that matches a specified one: the same formula and
/// bounds, or the same error.
pub open spec fn bounds_result(
    r: Result<SensitivityBounds, Error>,
    s: Result<(RowSensitivity, Seq<u64>, Seq<u64>), Error>,
) -> bool {
    match s {
        Ok((f, lo, hi)) => r matches Ok(b) && b.formula == f && b.min@ == lo && b.max@ == hi,
        Err(e) => r == Err::<SensitivityBounds, Error>(e),
    }
}

/// The values of a sequence without repetitions, each where it first occurs.
pub open spec fn dedup<A>(s: Seq<A>) -> Seq<A>
    decreases s.len(),
{
    if s.len() == 0 {
        s
    } else {
        let d = dedup(s.drop_last());
        if d.contains(s.last()) {
            d
        } else {
            d.push(s.last())
        }
    }
}

/// Removing repetitions keeps every value, adds none, and leaves no value twice.
pub proof fn lemma_dedup<A>(s: Seq<A>)
    ensures
        dedup(s).no_duplicates(),
        forall|x: A| dedup(s).contains(x) <==> s.contains(x),
    decreases s.len(),
{
    if s.len() > 0 {
        let t = s.drop_last();
        let l = s.last();
        let dt = dedup(t);
        lemma_dedup(t);
        assert forall|x: A| s.contains(x) <==> (t.contains(x) || x == l) by {
            if s.contains(x) {
                let i = choose|i: int| 0 <= i < s.len() && s[i] == x;
                if i < s.len() - 1 {
                    assert(t[i] == x);
                }
            }
            if t.contains(x) {
                let i = choose|i: int| 0 <= i < t.len() && t[i] == x;
                assert(s[i] == x);
            }
            if x == l {
                assert(s[s.len() - 1] == x);
            }
        }
        if !dt.contains(l) {
            let d = dt.push(l);
            assert forall|x: A| d.contains(x) <==> (dt.contains(x) || x == l) by {
                if d.contains(x) {
                    let i = choose|i: int| 0 <= i < d.len() && d[i] == x;
                    if i < d.len() - 1 {
                        assert(dt[i] == x);
                    }
                }
                if dt.contains(x) {
                    let i = choose|i: int| 0 <= i < dt.len() && dt[i] == x;
                    assert(d[i] == x);
                }
                if x == l {
                    assert(d[d.len() - 1] == x);
                }
            }
            assert forall|i: int, j: int| 0 <= i < d.len() && 0 <= j < d.len() && i != j implies d[i]
                != d[j] by {
                if i < d.len() - 1 && j < d.len() - 1 {
                    assert(d[i] == dt[i]);
                    assert(d[j] == dt[j]);
                } else if i < d.len() - 1 {
                    assert(d[i] == dt[i]);
                    assert(dt.contains(d[i]));
                } else {
                    assert(d[j] == dt[j]);
                    assert(dt.contains(d[j]));
                }
            }
        }
    }
}

/// A key is in a map exactly where it is among the map's key views.
pub proof fn lemma_has_key_contains<K: View, V>(s: Seq<(K, V)>, k: K::V)
    ensures
        has_key(s, k) <==> key_views(s).contains(k),
{
    if has_key(s, k) {
        let i = choose|i: int| 0 <= i < s.len() && #[trigger] s[i].0@ == k;
        assert(key_views(s)[i] == k);
    }
    if key_views(s).contains(k) {
        let i = choose|i: int| 0 <= i < key_views(s).len() && key_views(s)[i] == k;
        assert(s[i].0@ == k);
    }
}

} // verus!
