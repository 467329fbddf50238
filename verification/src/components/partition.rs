use vstd::prelude::*;
use crate::component::{Partition, PrivacyDefinition};
use crate::error::{ArgumentName, Error, prepend};
use crate::hashmap::Hashmap;
use crate::jagged::{Jagged, jagged_eqv, optional_columns_view};
use crate::keyed::{KeyedMap, has_key, key_views, keys_distinct, value_at, key_position};
use crate::properties::{
    ArrayProperties,
    HashmapProperties,
    Nature,
    NodeProperties,
    ValueProperties,
    array_props_eqv,
    lemma_array_props_eqv_trans,
};
use crate::scalar::{Scalar, seq_view};
use crate::value::Value;
use super::{PublicArguments, array_argument, dedup, get_array_argument, lemma_has_key_contains};

verus! {

/// Truncating division, as Rust's `/` on integers.
pub open spec fn trunc_div(a: int, b: int) -> int {
    if a >= 0 {
        a / b
    } else {
        -((-a) / b)
    }
}

/// The remainder of truncating division, as Rust's `%` on integers.
pub open spec fn trunc_rem(a: int, b: int) -> int {
    if a >= 0 {
        a % b
    } else {
        -((-a) % b)
    }
}

/// The number of records of partition `index` of `num_partitions`, for
/// data of `num_records` records: the quotient, plus one for each index
/// below the remainder, so that the partitions hold all the records.
pub open spec fn partition_size(num_records: i64, num_partitions: i64, index: int) -> int {
    trunc_div(num_records as int, num_partitions as int) + if index < trunc_rem(
        num_records as int,
        num_partitions as int,
    ) {
        1int
    } else {
        0int
    }
}

/// The number of records of partition `index`, where the number of records
/// of the data is known.
pub open spec fn partition_records(num_records: Option<i64>, num_partitions: i64, index: int) -> Option<i64> {
    match num_records {
        Some(n) => Some(partition_size(n, num_partitions, index) as i64),
        None => None,
    }
}

/// Every entry holds array properties equivalent to `p`.
pub open spec fn all_array_eqv<K>(s: Seq<(K, ValueProperties)>, p: ArrayProperties) -> bool {
    forall|j: int|
        0 <= j < s.len() ==> ((#[trigger] s[j]).1 matches ValueProperties::Array(q)
            && array_props_eqv(q, p))
}

/// The keys of the partitions by categories: the categories of the single
/// column, without repetitions; an error where there is not exactly one
/// column or its categories are unknown.
pub open spec fn broadcast_keys<T: View>(categories: Seq<Option<Vec<T>>>) -> Result<
    Seq<T::V>,
    Error,
> {
    if categories.len() != 1 {
        Err(Error::CategoriesMustBeOneColumn)
    } else if categories[0] is None {
        Err(Error::PartitionCategoriesUndefined)
    } else {
        Ok(dedup(seq_view(categories[0]->0@)))
    }
}

proof fn lemma_broadcast_keys_eqv<T: View>(a: Seq<Option<Vec<T>>>, b: Seq<Option<Vec<T>>>)
    requires
        optional_columns_view(a) == optional_columns_view(b),
    ensures
        broadcast_keys(a) == broadcast_keys(b),
{
    assert(a.len() == optional_columns_view(a).len());
    assert(b.len() == optional_columns_view(b).len());
    if a.len() == 1 {
        assert(optional_columns_view(a)[0] == optional_columns_view(b)[0]);
    }
}

proof fn lemma_jagged_broadcast_keys(a: Jagged, b: Jagged)
    requires
        jagged_eqv(a, b),
    ensures
        match (a, b) {
            (Jagged::Bool(x), Jagged::Bool(y)) => broadcast_keys(x@) == broadcast_keys(y@),
            (Jagged::I64(x), Jagged::I64(y)) => broadcast_keys(x@) == broadcast_keys(y@),
            (Jagged::Str(x), Jagged::Str(y)) => broadcast_keys(x@) == broadcast_keys(y@),
            _ => true,
        },
{
    match (a, b) {
        (Jagged::Bool(x), Jagged::Bool(y)) => lemma_broadcast_keys_eqv(x@, y@),
        (Jagged::I64(x), Jagged::I64(y)) => lemma_broadcast_keys_eqv(x@, y@),
        (Jagged::Str(x), Jagged::Str(y)) => lemma_broadcast_keys_eqv(x@, y@),
        _ => {},
    }
}

proof fn lemma_dedup_step<A>(s: Seq<A>, i: int)
    requires
        0 <= i < s.len(),
    ensures
        dedup(s.take(i + 1)) == if dedup(s.take(i)).contains(s[i]) {
            dedup(s.take(i))
        } else {
            dedup(s.take(i)).push(s[i])
        },
{
    assert(s.take(i + 1).drop_last() =~= s.take(i));
}

/// One partition per category of the single column, each with the given
/// properties.
pub fn broadcast_partitions<T: Scalar>(
    categories: &Vec<Option<Vec<T>>>,
    properties: &ArrayProperties,
) -> (r: Result<KeyedMap<T, ValueProperties>, Error>)
    ensures
        match broadcast_keys(categories@) {
            Err(e) => r == Err::<KeyedMap<T, ValueProperties>, Error>(e),
            Ok(keys) => r matches Ok(m) && key_views(m.entries()) == keys && all_array_eqv(
                m.entries(),
                *properties,
            ),
        },
{
    if categories.len() != 1 {
        return Err(Error::CategoriesMustBeOneColumn);
    }
    let partitions = match &categories[0] {
        Some(p) => p,
        None => {
            return Err(Error::PartitionCategoriesUndefined);
        },
    };
    let ghost views = seq_view(partitions@);
    let mut m: KeyedMap<T, ValueProperties> = KeyedMap::new();
    let n = partitions.len();
    let mut i: usize = 0;
    assert(views.take(0) =~= Seq::<T::V>::empty());
    assert(key_views(m.entries()) =~= Seq::<T::V>::empty());
    while i < n
        invariant
            n == partitions@.len(),
            views == seq_view(partitions@),
            i <= n,
            key_views(m.entries()) == dedup(views.take(i as int)),
            all_array_eqv(m.entries(), *properties),
        decreases n - i,
    {
        let ghost before = m.entries();
        let k = partitions[i].copied();
        let v = ValueProperties::Array(properties.clone());
        proof {
            lemma_has_key_contains(before, k@);
            lemma_dedup_step(views, i as int);
            assert(views[i as int] == k@);
        }
        m.insert(k, v);
        proof {
            if has_key(before, k@) {
                let pos = key_position(before, k@);
                assert(key_views(m.entries()) =~= key_views(before));
                assert forall|j: int| 0 <= j < m.entries().len() implies ((#[trigger] m.entries()[j]).1 matches ValueProperties::Array(q)
                    && array_props_eqv(q, *properties)) by {
                    if j != pos {
                        assert(m.entries()[j] == before[j]);
                    }
                }
            } else {
                assert(key_views(m.entries()) =~= key_views(before).push(k@));
                assert forall|j: int| 0 <= j < m.entries().len() implies ((#[trigger] m.entries()[j]).1 matches ValueProperties::Array(q)
                    && array_props_eqv(q, *properties)) by {
                    if j < before.len() {
                        assert(m.entries()[j] == before[j]);
                    }
                }
            }
        }
        i = i + 1;
    }
    assert(views.take(n as int) =~= views);
    Ok(m)
}

/// The categories of the `by` argument: an error where it is not an array,
/// has not exactly one known column, or its nature is not categorical.
pub open spec fn by_categories(properties: NodeProperties) -> Result<Jagged, Error> {
    match value_at(properties.entries(), "by"@) {
        ValueProperties::Array(b) => match b.num_columns {
            None => Err(Error::ByNumColumnsUnknown),
            Some(c) => if c != 1 {
                Err(Error::ByMustBeSingleColumn)
            } else {
                match b.nature {
                    Some(Nature::Categorical(n)) => Ok(n.categories),
                    Some(Nature::Continuous(_)) => Err(
                        Error::InArgument(ArgumentName::By, Box::new(Error::CategoriesNotDefined)),
                    ),
                    None => Err(
                        Error::InArgument(
                            ArgumentName::By,
                            Box::new(Error::CategoricalNatureNotDefined),
                        ),
                    ),
                }
            },
        },
        _ => Err(Error::InArgument(ArgumentName::By, Box::new(Error::PropertiesMustBeArray))),
    }
}

/// The `num_partitions` argument: an error where it is missing, is not an
/// array, or does not hold a single boolean or integer.
pub open spec fn num_partitions_argument(arguments: PublicArguments) -> Result<i64, Error> {
    if !has_key(arguments.entries(), "num_partitions"@) {
        Err(Error::NumPartitionsOrByRequired)
    } else {
        match value_at(arguments.entries(), "num_partitions"@) {
            Value::Array(a) => a.spec_first_i64(),
            _ => Err(Error::ValueMustBeArray),
        }
    }
}

/// The result of partitioning the data `d` by the categories `categories`:
/// one disjoint partition per category, each with the data's properties and
/// an unknown number of records.
pub open spec fn by_partitions_result(
    r: Result<ValueProperties, Error>,
    d: ArrayProperties,
    categories: Jagged,
) -> bool {
    let p = ArrayProperties { num_records: None, ..d };
    match categories {
        Jagged::F64(_) => r == Err::<ValueProperties, Error>(Error::FloatPartitioning),
        Jagged::Bool(c) => match broadcast_keys(c@) {
            Err(e) => r == Err::<ValueProperties, Error>(e),
            Ok(keys) => r matches Ok(ValueProperties::Hashmap(h)) && (h.num_records is None
                && h.disjoint && !h.columnar && (h.properties matches Hashmap::Bool(m) && (key_views(
                m.entries(),
            ) == keys && all_array_eqv(m.entries(), p)))),
        },
        Jagged::I64(c) => match broadcast_keys(c@) {
            Err(e) => r == Err::<ValueProperties, Error>(e),
            Ok(keys) => r matches Ok(ValueProperties::Hashmap(h)) && (h.num_records is None
                && h.disjoint && !h.columnar && (h.properties matches Hashmap::I64(m) && (key_views(
                m.entries(),
            ) == keys && all_array_eqv(m.entries(), p)))),
        },
        Jagged::Str(c) => match broadcast_keys(c@) {
            Err(e) => r == Err::<ValueProperties, Error>(e),
            Ok(keys) => r matches Ok(ValueProperties::Hashmap(h)) && (h.num_records is None
                && h.disjoint && !h.columnar && (h.properties matches Hashmap::Str(m) && (key_views(
                m.entries(),
            ) == keys && all_array_eqv(m.entries(), p)))),
        },
    }
}

/// The partitions keyed by `0 .. num_partitions`, each with the data's
/// properties and its share of the records.
pub open spec fn counted_partitions(
    s: Seq<(i64, ValueProperties)>,
    d: ArrayProperties,
    num_partitions: i64,
) -> bool {
    &&& s.len() == if num_partitions > 0 {
        num_partitions as int
    } else {
        0
    }
    &&& forall|j: int|
        0 <= j < s.len() ==> (#[trigger] s[j]).0 == j && (s[j].1 matches ValueProperties::Array(q)
            && array_props_eqv(
            q,
            ArrayProperties { num_records: partition_records(d.num_records, num_partitions, j), ..d },
        ))
}

/// The result of splitting the data `d` into `num_partitions` partitions.
pub open spec fn counted_partitions_result(
    r: Result<ValueProperties, Error>,
    d: ArrayProperties,
    num_partitions: i64,
) -> bool {
    r matches Ok(ValueProperties::Hashmap(h)) && (h.num_records == d.num_records && !h.disjoint
        && !h.columnar && (h.properties matches Hashmap::I64(m) && counted_partitions(
        m.entries(),
        d,
        num_partitions,
    )))
}

fn partition_size_exec(num_records: i64, num_partitions: i64, index: i64) -> (r: i64)
    requires
        num_partitions > 0,
        0 <= index < num_partitions,
    ensures
        r == partition_size(num_records, num_partitions, index as int),
{
    let q = num_records / num_partitions;
    let m = num_records % num_partitions;
    assert(q == trunc_div(num_records as int, num_partitions as int));
    assert(m == trunc_rem(num_records as int, num_partitions as int));
    if index < m {
        assert(num_records >= 0);
        assert(m < num_partitions) by (nonlinear_arith)
            requires
                num_partitions > 0,
                num_records >= 0,
                m == (num_records as int) % (num_partitions as int),
        ;
        assert(q < i64::MAX) by (nonlinear_arith)
            requires
                num_partitions >= 2,
                q == (num_records as int) / (num_partitions as int),
                num_records >= 0,
                num_records <= i64::MAX,
        ;
        q + 1
    } else {
        q
    }
}

fn counted_entries(d: &ArrayProperties, num_partitions: i64) -> (r: Vec<(i64, ValueProperties)>)
    ensures
        counted_partitions(r@, *d, num_partitions),
        keys_distinct(r@),
{
    let mut r: Vec<(i64, ValueProperties)> = Vec::new();
    let mut index: i64 = 0;
    while index < num_partitions
        invariant
            0 <= index,
            num_partitions > 0 ==> index <= num_partitions,
            num_partitions <= 0 ==> index == 0,
            r@.len() == index,
            forall|j: int|
                0 <= j < index ==> (#[trigger] r@[j]).0 == j && (r@[j].1 matches ValueProperties::Array(q)
                    && array_props_eqv(
                    q,
                    ArrayProperties {
                        num_records: partition_records(d.num_records, num_partitions, j),
                        ..*d
                    },
                )),
        decreases num_partitions - index,
    {
        let mut partition_property = d.clone();
        partition_property.num_records = match d.num_records {
            Some(n) => Some(partition_size_exec(n, num_partitions, index)),
            None => None,
        };
        r.push((index, ValueProperties::Array(partition_property)));
        index = index + 1;
    }
    assert forall|a: int, b: int| 0 <= a < r@.len() && 0 <= b < r@.len() && a != b implies
        #[trigger] r@[a].0@ != #[trigger] r@[b].0@ by {
        assert(r@[a].0 == a);
        assert(r@[b].0 == b);
    }
    r
}

/// What `Partition::propagate_property` gives back: the data's properties
/// split by the categories of `by` where it is given, else into
/// `num_partitions` parts; the error of the first argument that is missing
/// or unfit.
pub open spec fn partition_result(
    r: Result<ValueProperties, Error>,
    public_arguments: PublicArguments,
    properties: NodeProperties,
) -> bool {
    match array_argument(properties, ArgumentName::Data) {
        Err(e) => r == Err::<ValueProperties, Error>(e),
        Ok(d) => if has_key(properties.entries(), "by"@) {
            match by_categories(properties) {
                Err(e) => r == Err::<ValueProperties, Error>(e),
                Ok(categories) => by_partitions_result(r, d, categories),
            }
        } else {
            match num_partitions_argument(public_arguments) {
                Err(e) => r == Err::<ValueProperties, Error>(e),
                Ok(p) => counted_partitions_result(r, d, p),
            }
        },
    }
}

/// Each partition in `h` holds array properties with an unknown number of
/// records and otherwise the properties `p`.
pub open spec fn partitions_of_unknown_size(h: Hashmap<ValueProperties>, p: ArrayProperties) -> bool {
    match h {
        Hashmap::Bool(m) => forall|j: int|
            0 <= j < m.entries().len() ==> ((#[trigger] m.entries()[j]).1 matches ValueProperties::Array(q)
                && q.num_records is None && array_props_eqv(q, p)),
        Hashmap::I64(m) => forall|j: int|
            0 <= j < m.entries().len() ==> ((#[trigger] m.entries()[j]).1 matches ValueProperties::Array(q)
                && q.num_records is None && array_props_eqv(q, p)),
        Hashmap::Str(m) => forall|j: int|
            0 <= j < m.entries().len() ==> ((#[trigger] m.entries()[j]).1 matches ValueProperties::Array(q)
                && q.num_records is None && array_props_eqv(q, p)),
    }
}

/// Partitioning by the categories of `by` gives disjoint partitions of
/// unknown size, whatever the type of the categories: neither the map nor
/// any partition carries the data's number of records, and each partition
/// has the data's other properties.
pub proof fn lemma_partitions_by_categories_have_unknown_size(
    r: Result<ValueProperties, Error>,
    public_arguments: PublicArguments,
    properties: NodeProperties,
)
    requires
        partition_result(r, public_arguments, properties),
        has_key(properties.entries(), "by"@),
    ensures
        r matches Ok(ValueProperties::Hashmap(h)) ==> (h.disjoint && h.num_records is None
            && (array_argument(properties, ArgumentName::Data) matches Ok(d)
            && partitions_of_unknown_size(h.properties, ArrayProperties { num_records: None, ..d }))),
{
}

impl Partition {
    /// The properties of the partitions of the data: by the categories of
    /// the `by` argument where it is given, else into `num_partitions`
    /// parts of about equal size.
    pub fn propagate_property(
        &self,
        _privacy_definition: &PrivacyDefinition,
        public_arguments: &PublicArguments,
        properties: &NodeProperties,
    ) -> (r: Result<ValueProperties, Error>)
        ensures
            partition_result(r, *public_arguments, *properties),
    {
        let data_ref = get_array_argument(properties, ArgumentName::Data)?;
        let by_key = "by".to_string();
        match properties.get(&by_key) {
            Some(by_property) => {
                let mut data_property = data_ref.clone();
                let by_property = match by_property.array() {
                    Ok(b) => b,
                    Err(e) => {
                        return Err(prepend(ArgumentName::By, e));
                    },
                };
                let by_num_columns = match by_property.num_columns {
                    Some(n) => n,
                    None => {
                        return Err(Error::ByNumColumnsUnknown);
                    },
                };
                if by_num_columns != 1 {
                    return Err(Error::ByMustBeSingleColumn);
                }
                let categories = match by_property.categories() {
                    Ok(c) => c,
                    Err(e) => {
                        return Err(prepend(ArgumentName::By, e));
                    },
                };
                data_property.num_records = None;
                let ghost spec_categories = by_categories(*properties)->Ok_0;
                let ghost p = ArrayProperties { num_records: None, ..*data_ref };
                assert(jagged_eqv(categories, spec_categories));
                assert(array_props_eqv(data_property, p));
                proof {
                    lemma_jagged_broadcast_keys(categories, spec_categories);
                }
                let partitions = match &categories {
                    Jagged::Bool(c) => {
                        let m = broadcast_partitions(c, &data_property)?;
                        proof {
                            lemma_partitions_eqv(m.entries(), data_property, p);
                        }
                        Hashmap::Bool(m)
                    },
                    Jagged::Str(c) => {
                        let m = broadcast_partitions(c, &data_property)?;
                        proof {
                            lemma_partitions_eqv(m.entries(), data_property, p);
                        }
                        Hashmap::Str(m)
                    },
                    Jagged::I64(c) => {
                        let m = broadcast_partitions(c, &data_property)?;
                        proof {
                            lemma_partitions_eqv(m.entries(), data_property, p);
                        }
                        Hashmap::I64(m)
                    },
                    _ => {
                        return Err(Error::FloatPartitioning);
                    },
                };
                Ok(
                    ValueProperties::Hashmap(
                        HashmapProperties {
                            num_records: data_property.num_records,
                            disjoint: true,
                            properties: partitions,
                            columnar: false,
                        },
                    ),
                )
            },
            None => {
                let key = "num_partitions".to_string();
                let num_partitions = match public_arguments.get(&key) {
                    Some(v) => v.array()?.first_i64()?,
                    None => {
                        return Err(Error::NumPartitionsOrByRequired);
                    },
                };
                let entries = counted_entries(data_ref, num_partitions);
                Ok(
                    ValueProperties::Hashmap(
                        HashmapProperties {
                            num_records: data_ref.num_records,
                            disjoint: false,
                            properties: Hashmap::I64(KeyedMap::from_distinct(entries)),
                            columnar: false,
                        },
                    ),
                )
            },
        }
    }

    /// Names of the outputs; not implemented.
    pub fn get_names(&self, _properties: &NodeProperties) -> (r: Result<Vec<String>, Error>)
        ensures
            r == Err::<Vec<String>, Error>(Error::GetNamesNotImplemented),
    {
        Err(Error::GetNamesNotImplemented)
    }
}

proof fn lemma_partitions_eqv<K>(s: Seq<(K, ValueProperties)>, a: ArrayProperties, b: ArrayProperties)
    requires
        all_array_eqv(s, a),
        array_props_eqv(a, b),
    ensures
        all_array_eqv(s, b),
{
    assert forall|j: int| 0 <= j < s.len() implies ((#[trigger] s[j]).1 matches ValueProperties::Array(q)
        && array_props_eqv(q, b)) by {
        if let ValueProperties::Array(q) = s[j].1 {
            lemma_array_props_eqv_trans(q, a, b);
        }
    }
}

/// Each of `num_partitions` partitions gets the quotient or one more
/// record, so any two differ by at most one.
pub proof fn lemma_partition_sizes_balanced(num_records: i64, num_partitions: i64, i: int, j: int)
    requires
        num_partitions > 0,
        0 <= i < num_partitions,
        0 <= j < num_partitions,
    ensures
        partition_size(num_records, num_partitions, i) == trunc_div(
            num_records as int,
            num_partitions as int,
        ) || partition_size(num_records, num_partitions, i) == trunc_div(
            num_records as int,
            num_partitions as int,
        ) + 1,
        -1 <= partition_size(num_records, num_partitions, i) - partition_size(
            num_records,
            num_partitions,
            j,
        ) <= 1,
        i <= j ==> partition_size(num_records, num_partitions, j) <= partition_size(
            num_records,
            num_partitions,
            i,
        ),
{
}

/// The records of the first `k` partitions.
pub open spec fn partition_total(num_records: i64, num_partitions: i64, k: nat) -> int
    decreases k,
{
    if k == 0 {
        0
    } else {
        partition_total(num_records, num_partitions, (k - 1) as nat) + partition_size(
            num_records,
            num_partitions,
            k - 1,
        )
    }
}

proof fn lemma_partition_total_prefix(num_records: i64, num_partitions: i64, k: nat)
    requires
        num_records >= 0,
        num_partitions > 0,
        k <= num_partitions,
    ensures
        partition_total(num_records, num_partitions, k) == k * (num_records / num_partitions) + if k
            <= num_records % num_partitions {
            k as int
        } else {
            (num_records % num_partitions) as int
        },
    decreases k,
{
    if k > 0 {
        lemma_partition_total_prefix(num_records, num_partitions, (k - 1) as nat);
        let q = num_records / num_partitions;
        let r = num_records % num_partitions;
        assert(trunc_div(num_records as int, num_partitions as int) == q);
        assert(trunc_rem(num_records as int, num_partitions as int) == r);
        assert(partition_size(num_records, num_partitions, k - 1) == q + if k - 1 < r {
            1int
        } else {
            0int
        });
        assert(k * q == (k - 1) * q + q) by (nonlinear_arith);
    } else {
        assert(0 * (num_records / num_partitions) == 0);
    }
}

/// For a known, non-negative number of records, the partitions hold all the
/// records: their sizes add up to the number of records.
pub proof fn lemma_partition_sizes_total(num_records: i64, num_partitions: i64)
    requires
        num_records >= 0,
        num_partitions > 0,
    ensures
        partition_total(num_records, num_partitions, num_partitions as nat) == num_records,
{
    lemma_partition_total_prefix(num_records, num_partitions, num_partitions as nat);
    let q = num_records / num_partitions;
    let r = num_records % num_partitions;
    assert(num_records == num_partitions * q + r) by (nonlinear_arith)
        requires
            num_partitions > 0,
            q == num_records / num_partitions,
            r == num_records % num_partitions,
    ;
    assert(r < num_partitions) by (nonlinear_arith)
        requires
            num_partitions > 0,
            r == num_records % num_partitions,
    ;
}

/// The sum of the known record counts of the partitions in `s`.
pub open spec fn records_total(s: Seq<(i64, ValueProperties)>) -> int
    decreases s.len(),
{
    if s.len() == 0 {
        0
    } else {
        records_total(s.drop_last()) + match s.last().1 {
            ValueProperties::Array(q) => match q.num_records {
                Some(x) => x as int,
                None => 0,
            },
            _ => 0,
        }
    }
}

proof fn lemma_partition_size_bounds(num_records: i64, num_partitions: i64, index: int)
    requires
        num_records >= 0,
        num_partitions > 0,
        0 <= index < num_partitions,
    ensures
        0 <= partition_size(num_records, num_partitions, index) <= num_records,
{
    let q = num_records / num_partitions;
    let m = num_records % num_partitions;
    assert(trunc_div(num_records as int, num_partitions as int) == q);
    assert(trunc_rem(num_records as int, num_partitions as int) == m);
    assert(0 <= q <= num_records) by (nonlinear_arith)
        requires
            num_records >= 0,
            num_partitions > 0,
            q == num_records / num_partitions,
    ;
    if index < m {
        assert(q + 1 <= num_records) by (nonlinear_arith)
            requires
                num_records >= 0,
                num_partitions > 0,
                0 <= index,
                index < m,
                q == num_records / num_partitions,
                m == num_records % num_partitions,
        ;
    }
}

proof fn lemma_records_total_prefix(
    s: Seq<(i64, ValueProperties)>,
    d: ArrayProperties,
    num_partitions: i64,
    n: i64,
    j: nat,
)
    requires
        counted_partitions(s, d, num_partitions),
        d.num_records == Some(n),
        n >= 0,
        num_partitions >= 1,
        j <= s.len(),
    ensures
        records_total(s.take(j as int)) == partition_total(n, num_partitions, j),
    decreases j,
{
    if j > 0 {
        lemma_records_total_prefix(s, d, num_partitions, n, (j - 1) as nat);
        assert(s.take(j as int).drop_last() =~= s.take(j - 1));
        assert(s.take(j as int).last() == s[j - 1]);
        lemma_partition_size_bounds(n, num_partitions, j - 1);
        let x = s[j - 1];
        if let ValueProperties::Array(q) = x.1 {
            assert(q.num_records == partition_records(d.num_records, num_partitions, j - 1));
        }
    }
}

/// For `n >= 0` records split into `k >= 1` partitions: there are `k`
/// partitions, their record counts add up to `n`, and any two differ by at
/// most one.
pub open spec fn holds_all_records(
    s: Seq<(i64, ValueProperties)>,
    records: Option<i64>,
    partitions: Result<i64, Error>,
) -> bool {
    match (records, partitions) {
        (Some(n), Ok(k)) => (n >= 0 && k >= 1) ==> {
            &&& s.len() == k
            &&& records_total(s) == n
            &&& forall|i: int, j: int|
                #![trigger s[i], s[j]]
                0 <= i < k && 0 <= j < k ==> (s[i].1 matches ValueProperties::Array(qi)
                    && s[j].1 matches ValueProperties::Array(qj) && qi.num_records matches Some(si)
                    && qj.num_records matches Some(sj) && -1 <= si - sj <= 1)
        },
        _ => true,
    }
}

/// Splitting data of a known, non-negative number of records into one or
/// more counted partitions keeps every record exactly once: the map keeps
/// the data's record count as its global count, the partitions are not
/// disjoint categories, and their record counts add up to that global
/// count, with any two differing by at most one.
pub proof fn lemma_counted_partitions_hold_all_records(
    r: Result<ValueProperties, Error>,
    public_arguments: PublicArguments,
    properties: NodeProperties,
)
    requires
        partition_result(r, public_arguments, properties),
        !has_key(properties.entries(), "by"@),
    ensures
        r matches Ok(ValueProperties::Hashmap(h)) ==> (!h.disjoint && (array_argument(
            properties,
            ArgumentName::Data,
        ) matches Ok(d) && h.num_records == d.num_records && (h.properties matches Hashmap::I64(m)
            && holds_all_records(m.entries(), d.num_records, num_partitions_argument(public_arguments))))),
{
    if let Ok(ValueProperties::Hashmap(h)) = r {
        if let Ok(d) = array_argument(properties, ArgumentName::Data) {
            if let Hashmap::I64(m) = h.properties {
                if let Some(n) = d.num_records {
                    if let Ok(k) = num_partitions_argument(public_arguments) {
                        if n >= 0 && k >= 1 {
                            let s = m.entries();
                            lemma_records_total_prefix(s, d, k, n, s.len());
                            assert(s.take(s.len() as int) =~= s);
                            lemma_partition_sizes_total(n, k);
                            assert forall|i: int, j: int|
                                #![trigger s[i], s[j]]
                                0 <= i < k && 0 <= j < k implies (
                            s[i].1 matches ValueProperties::Array(qi) && s[j].1 matches ValueProperties::Array(
                                qj,
                            ) && qi.num_records matches Some(si) && qj.num_records matches Some(sj)
                                && -1 <= si - sj <= 1) by {
                                lemma_partition_size_bounds(n, k, i);
                                lemma_partition_size_bounds(n, k, j);
                                lemma_partition_sizes_balanced(n, k, i, j);
                                assert(s[i] == s[i]);
                                assert(s[j] == s[j]);
                            }
                        }
                    }
                }
            }
        }
    }
}

} // verus!
