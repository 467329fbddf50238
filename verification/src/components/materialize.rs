use vstd::prelude::*;
use crate::array::Array;
use crate::bits::ONE_BITS;
use crate::component::{Materialize, PrivacyDefinition};
use crate::error::Error;
use crate::hashmap::Hashmap;
use crate::keyed::{KeyedMap, has_key, key_views, key_position, keys_distinct, value_at};
use crate::nd::NdArray;
use crate::properties::{
    ArrayProperties,
    DataType,
    HashmapProperties,
    NodeProperties,
    ValueProperties,
};
use crate::scalar::{Scalar, seq_view};
use crate::value::Value;
use super::{PublicArguments, dedup, lemma_has_key_contains};

verus! {

/// The string array of the `column_names` argument, where it is given as one.
pub open spec fn column_names_argument(arguments: PublicArguments) -> Option<NdArray<String>> {
    if has_key(arguments.entries(), "column_names"@) {
        match value_at(arguments.entries(), "column_names"@) {
            Value::Array(Array::Str(x)) => Some(x),
            _ => None,
        }
    } else {
        None
    }
}

/// The number in the `num_columns` argument, where it is given as a single
/// boolean or integer.
pub open spec fn num_columns_argument(arguments: PublicArguments) -> Option<i64> {
    if has_key(arguments.entries(), "num_columns"@) {
        match value_at(arguments.entries(), "num_columns"@) {
            Value::Array(a) => match a.spec_first_i64() {
                Ok(n) => Some(n),
                Err(_) => None,
            },
            _ => None,
        }
    } else {
        None
    }
}

/// The properties of a freshly loaded column: a single nullable string
/// column of unknown length, with stability one, releasable unless private.
pub open spec fn materialized_column(q: ArrayProperties, m: Materialize) -> bool {
    &&& q.num_records is None
    &&& q.num_columns == Some(1i64)
    &&& q.nullity
    &&& q.releasable == !m.private
    &&& q.c_stability@ == seq![ONE_BITS]
    &&& q.aggregator is None
    &&& q.nature is None
    &&& q.data_type == DataType::Str
    &&& q.dataset_id == m.dataset_id
}

/// Every entry holds the properties of a freshly loaded column.
pub open spec fn all_materialized<K>(s: Seq<(K, ValueProperties)>, m: Materialize) -> bool {
    forall|j: int|
        0 <= j < s.len() ==> ((#[trigger] s[j]).1 matches ValueProperties::Array(q)
            && materialized_column(q, m))
}

/// The result of loading the columns named in `names`.
pub open spec fn named_columns_result(
    r: Result<ValueProperties, Error>,
    names: Seq<Seq<char>>,
    m: Materialize,
) -> bool {
    r matches Ok(ValueProperties::Hashmap(h)) && (h.num_records is None && !h.disjoint && h.columnar
        && (h.properties matches Hashmap::Str(c) && (key_views(c.entries()) == dedup(names)
        && all_materialized(c.entries(), m))))
}

/// The result of loading `n` columns, keyed `0 .. n`.
pub open spec fn counted_columns_result(
    r: Result<ValueProperties, Error>,
    n: i64,
    m: Materialize,
) -> bool {
    r matches Ok(ValueProperties::Hashmap(h)) && (h.num_records is None && !h.disjoint && h.columnar
        && (h.properties matches Hashmap::I64(c) && (c.entries().len() == (if n > 0 {
        n as int
    } else {
        0
    }) && (forall|j: int| 0 <= j < c.entries().len() ==> (#[trigger] c.entries()[j]).0 == j)
        && all_materialized(c.entries(), m))))
}

/// What `Materialize::propagate_property` gives back: one column per name
/// in `column_names` where it is a string array, else one per number below
/// `num_columns`; an error where neither is given.
pub open spec fn materialize_result(
    r: Result<ValueProperties, Error>,
    public_arguments: PublicArguments,
    m: Materialize,
) -> bool {
    match column_names_argument(public_arguments) {
        Some(names) => named_columns_result(r, seq_view(names.spec_data()), m),
        None => match num_columns_argument(public_arguments) {
            Some(n) => counted_columns_result(r, n, m),
            None => r == Err::<ValueProperties, Error>(Error::ColumnNamesOrNumColumnsRequired),
        },
    }
}

/// Loading a dataset gives a columnar map of columns, not disjoint and of
/// unknown length, whichever argument names the columns; it fails exactly
/// where neither `column_names` nor `num_columns` is given, and then with
/// the error that asks for one of them.
pub proof fn lemma_materialized_data_is_columnar(
    r: Result<ValueProperties, Error>,
    public_arguments: PublicArguments,
    m: Materialize,
)
    requires
        materialize_result(r, public_arguments, m),
    ensures
        r is Ok <==> (column_names_argument(public_arguments) is Some || num_columns_argument(
            public_arguments,
        ) is Some),
        r is Err ==> r == Err::<ValueProperties, Error>(Error::ColumnNamesOrNumColumnsRequired),
        r matches Ok(v) ==> (v matches ValueProperties::Hashmap(h) && h.columnar && !h.disjoint
            && h.num_records is None),
{
}

impl Materialize {
    fn column_property(&self) -> (r: ArrayProperties)
        ensures
            materialized_column(r, *self),
    {
        let mut c_stability: Vec<u64> = Vec::new();
        c_stability.push(ONE_BITS);
        assert(c_stability@ =~= seq![ONE_BITS]);
        ArrayProperties {
            num_records: None,
            num_columns: Some(1),
            nullity: true,
            releasable: !self.private,
            c_stability,
            aggregator: None,
            nature: None,
            data_type: DataType::Str,
            dataset_id: self.dataset_id,
        }
    }

    fn named_columns(&self, names: &NdArray<String>) -> (r: KeyedMap<String, ValueProperties>)
        ensures
            key_views(r.entries()) == dedup(seq_view(names.spec_data())),
            all_materialized(r.entries(), *self),
    {
        let data = names.data();
        let ghost views = seq_view(data@);
        let mut m: KeyedMap<String, ValueProperties> = KeyedMap::new();
        let n = data.len();
        let mut i: usize = 0;
        assert(views.take(0) =~= Seq::<Seq<char>>::empty());
        assert(key_views(m.entries()) =~= Seq::<Seq<char>>::empty());
        while i < n
            invariant
                n == data@.len(),
                views == seq_view(data@),
                i <= n,
                key_views(m.entries()) == dedup(views.take(i as int)),
                all_materialized(m.entries(), *self),
            decreases n - i,
        {
            let ghost before = m.entries();
            let k = data[i].copied();
            let v = ValueProperties::Array(self.column_property());
            proof {
                lemma_has_key_contains(before, k@);
                assert(views.take(i + 1).drop_last() =~= views.take(i as int));
                assert(views[i as int] == k@);
            }
            m.insert(k, v);
            proof {
                if has_key(before, k@) {
                    let pos = key_position(before, k@);
                    assert(key_views(m.entries()) =~= key_views(before));
                    assert forall|j: int| 0 <= j < m.entries().len() implies ((#[trigger] m.entries()[j]).1 matches ValueProperties::Array(q)
                        && materialized_column(q, *self)) by {
                        if j != pos {
                            assert(m.entries()[j] == before[j]);
                        }
                    }
                } else {
                    assert(key_views(m.entries()) =~= key_views(before).push(k@));
                    assert forall|j: int| 0 <= j < m.entries().len() implies ((#[trigger] m.entries()[j]).1 matches ValueProperties::Array(q)
                        && materialized_column(q, *self)) by {
                        if j < before.len() {
                            assert(m.entries()[j] == before[j]);
                        }
                    }
                }
            }
            i = i + 1;
        }
        assert(views.take(n as int) =~= views);
        m
    }

    fn counted_columns(&self, n: i64) -> (r: KeyedMap<i64, ValueProperties>)
        ensures
            r.entries().len() == (if n > 0 {
                n as int
            } else {
                0
            }),
            forall|j: int| 0 <= j < r.entries().len() ==> (#[trigger] r.entries()[j]).0 == j,
            all_materialized(r.entries(), *self),
    {
        let mut entries: Vec<(i64, ValueProperties)> = Vec::new();
        let mut index: i64 = 0;
        while index < n
            invariant
                0 <= index,
                n > 0 ==> index <= n,
                n <= 0 ==> index == 0,
                entries@.len() == index,
                forall|j: int| 0 <= j < index ==> (#[trigger] entries@[j]).0 == j,
                all_materialized(entries@, *self),
            decreases n - index,
        {
            entries.push((index, ValueProperties::Array(self.column_property())));
            index = index + 1;
        }
        assert forall|a: int, b: int|
            0 <= a < entries@.len() && 0 <= b < entries@.len() && a != b implies #[trigger] entries@[a].0@
            != #[trigger] entries@[b].0@ by {
            assert(entries@[a].0 == a);
            assert(entries@[b].0 == b);
        }
        KeyedMap::from_distinct(entries)
    }

    /// The properties of the loaded dataset: one column per name in
    /// `column_names` where it is a string array, else one per number below
    /// `num_columns`; an error where neither is given.
    pub fn propagate_property(
        &self,
        _privacy_definition: &PrivacyDefinition,
        public_arguments: &PublicArguments,
        _properties: &NodeProperties,
    ) -> (r: Result<ValueProperties, Error>)
        ensures
            materialize_result(r, *public_arguments, *self),
    {
        let names_key = "column_names".to_string();
        let column_names = match public_arguments.get(&names_key) {
            Some(v) => match v.array() {
                Ok(a) => match a.string() {
                    Ok(x) => Some(x),
                    Err(_) => None,
                },
                Err(_) => None,
            },
            None => None,
        };
        let columns_key = "num_columns".to_string();
        let num_columns = match public_arguments.get(&columns_key) {
            Some(v) => match v.array() {
                Ok(a) => match a.first_i64() {
                    Ok(n) => Some(n),
                    Err(_) => None,
                },
                Err(_) => None,
            },
            None => None,
        };
        let properties = match (column_names, num_columns) {
            (Some(column_names), _) => Hashmap::Str(self.named_columns(column_names)),
            (None, Some(num_columns)) => Hashmap::I64(self.counted_columns(num_columns)),
            _ => {
                return Err(Error::ColumnNamesOrNumColumnsRequired);
            },
        };
        Ok(
            ValueProperties::Hashmap(
                HashmapProperties { num_records: None, disjoint: false, properties, columnar: true },
            ),
        )
    }

    /// Names of the outputs; not implemented.
    pub fn get_names(&self, _properties: &NodeProperties) -> (r: Result<Vec<String>, Error>)
        ensures
            r == Err::<Vec<String>, Error>(Error::GetNamesNotImplemented),
    {
        Err(Error::GetNamesNotImplemented)
    }
}

} // verus!
