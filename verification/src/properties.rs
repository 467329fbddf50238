use vstd::prelude::*;
use crate::component::Component;
use crate::error::Error;
use crate::hashmap::Hashmap;
use crate::array::repeated;
use crate::jagged::{
    Jagged,
    Vector1DNull,
    all_defined,
    defined_columns_view,
    jagged_eqv,
    optional_columns_view,
    vector_eqv,
};
use crate::scalar::seq_view;
use crate::utilities::{standardize_categorical_argument, standardized_categories};
use crate::keyed::KeyedMap;
use crate::scalar::Scalar;

verus! {

/// Fundamental data types of arrays and jagged matrices.
#[derive(Debug, Clone, Copy, PartialEq, Eq, Structural)]
pub enum DataType {
    Bool,
    Str,
    F64,
    I64,
}

/// Derived properties of a value.
#[derive(Debug)]
pub enum ValueProperties {
    Hashmap(HashmapProperties),
    Array(ArrayProperties),
    Jagged(JaggedProperties),
}

/// Derived properties of a hash-map value.
#[derive(Debug)]
pub struct HashmapProperties {
    /// global count over all partitions
    pub num_records: Option<i64>,
    /// records within the values of the hashmap come from a partition of the rows
    pub disjoint: bool,
    /// properties for each of the values in the hashmap
    pub properties: Hashmap<ValueProperties>,
    pub columnar: bool,
}

/// Derived properties of an array value.
#[derive(Debug)]
pub struct ArrayProperties {
    /// Defined if the number of records is known statically
    pub num_records: Option<i64>,
    pub num_columns: Option<i64>,
    /// true if the data may contain null values
    pub nullity: bool,
    /// set to true by the mechanisms. Acts as a filter on the values in the release
    pub releasable: bool,
    /// amplification of privacy usage by unstable data transformations, or
    /// possibility of duplicated records (IEEE-754 bit patterns)
    pub c_stability: Vec<u64>,
    /// set when data is aggregated, used to help compute sensitivity from the mechanisms
    pub aggregator: Option<AggregatorProperties>,
    /// either min/max or categories
    pub nature: Option<Nature>,
    /// f64, i64, bool, String
    pub data_type: DataType,
    /// index of last Materialize or Filter node, where dataset was created
    pub dataset_id: Option<i64>,
}

/// Derived properties of a jagged value.
#[derive(Debug, Clone, Copy, PartialEq, Eq, Structural)]
pub struct JaggedProperties {
    pub releasable: bool,
}

/// The properties of each argument of a node, by argument name.
pub type NodeProperties = KeyedMap<String, ValueProperties>;

/// A snapshot of the component that aggregated a value and of the
/// properties of its arguments at that point.
#[derive(Debug)]
pub struct AggregatorProperties {
    pub component: Component,
    pub properties: NodeProperties,
}

/// What is known of the values of an array: bounds or categories.
#[derive(Debug)]
pub enum Nature {
    Continuous(NatureContinuous),
    Categorical(NatureCategorical),
}

/// The categories of each column.
#[derive(Debug)]
pub struct NatureCategorical {
    pub categories: Jagged,
}

/// Lower and upper bounds of each column.
#[derive(Debug)]
pub struct NatureContinuous {
    pub min: Vector1DNull,
    pub max: Vector1DNull,
}

/// Accepted spaces for sensitivity to be computed within.
#[derive(Debug, Clone, Copy, PartialEq, Eq)]
pub enum SensitivitySpace {
    /// KNorm(1) is L1, KNorm(2) is L2.
    KNorm(u32),
    /// Infinity norm.
    InfNorm,
    Exponential,
}

/// Two natures of the same kind with the same bounds or categories.
pub open spec fn nature_eqv(a: Nature, b: Nature) -> bool {
    match (a, b) {
        (Nature::Continuous(x), Nature::Continuous(y)) => vector_eqv(x.min, y.min) && vector_eqv(
            x.max,
            y.max,
        ),
        (Nature::Categorical(x), Nature::Categorical(y)) => jagged_eqv(x.categories, y.categories),
        _ => false,
    }
}

/// Two optional natures that are both absent or equivalent.
pub open spec fn opt_nature_eqv(a: Option<Nature>, b: Option<Nature>) -> bool {
    match (a, b) {
        (None, None) => true,
        (Some(x), Some(y)) => nature_eqv(x, y),
        _ => false,
    }
}

/// Two value properties with the same content.
pub open spec fn props_eqv(a: ValueProperties, b: ValueProperties) -> bool
    decreases a, 0nat,
{
    match (a, b) {
        (ValueProperties::Hashmap(x), ValueProperties::Hashmap(y)) => {
            &&& x.num_records == y.num_records
            &&& x.disjoint == y.disjoint
            &&& x.columnar == y.columnar
            &&& match (x.properties, y.properties) {
                (Hashmap::Bool(m), Hashmap::Bool(n)) => {
                    proof {
                        m.lemma_entries_decrease();
                    }
                    entries_eqv(m.entries(), n.entries(), m.entries().len())
                },
                (Hashmap::I64(m), Hashmap::I64(n)) => {
                    proof {
                        m.lemma_entries_decrease();
                    }
                    entries_eqv(m.entries(), n.entries(), m.entries().len())
                },
                (Hashmap::Str(m), Hashmap::Str(n)) => {
                    proof {
                        m.lemma_entries_decrease();
                    }
                    entries_eqv(m.entries(), n.entries(), m.entries().len())
                },
                _ => false,
            }
        },
        (ValueProperties::Array(x), ValueProperties::Array(y)) => array_props_eqv(x, y),
        (ValueProperties::Jagged(x), ValueProperties::Jagged(y)) => x == y,
        _ => false,
    }
}

/// Two array properties with the same content.
pub open spec fn array_props_eqv(a: ArrayProperties, b: ArrayProperties) -> bool
    decreases a, 0nat,
{
    &&& a.num_records == b.num_records
    &&& a.num_columns == b.num_columns
    &&& a.nullity == b.nullity
    &&& a.releasable == b.releasable
    &&& a.c_stability@ == b.c_stability@
    &&& match (a.aggregator, b.aggregator) {
        (None, None) => true,
        (Some(x), Some(y)) => {
            &&& x.component == y.component
            &&& {
                proof {
                    x.properties.lemma_entries_decrease();
                }
                entries_eqv(
                    x.properties.entries(),
                    y.properties.entries(),
                    x.properties.entries().len(),
                )
            }
        },
        _ => false,
    }
    &&& opt_nature_eqv(a.nature, b.nature)
    &&& a.data_type == b.data_type
    &&& a.dataset_id == b.dataset_id
}

/// Two sequences of entries whose first `n` entries have the same keys and
/// equivalent properties, and which are equally long.
pub open spec fn entries_eqv<K: View>(
    a: Seq<(K, ValueProperties)>,
    b: Seq<(K, ValueProperties)>,
    n: nat,
) -> bool
    decreases a, n,
{
    if n == 0 {
        a.len() == b.len()
    } else if n > a.len() {
        false
    } else {
        &&& entries_eqv(a, b, (n - 1) as nat)
        &&& a[n - 1].0@ == b[n - 1].0@
        &&& props_eqv(a[n - 1].1, b[n - 1].1)
    }
}

/// Two maps of argument properties with the same keys and equivalent properties.
pub open spec fn node_props_eqv(a: NodeProperties, b: NodeProperties) -> bool {
    entries_eqv(a.entries(), b.entries(), a.entries().len())
}

/// Entries that are equivalent up to `n` are equivalent entry by entry.
pub proof fn lemma_entries_eqv<K: View>(
    a: Seq<(K, ValueProperties)>,
    b: Seq<(K, ValueProperties)>,
    n: nat,
)
    requires
        entries_eqv(a, b, n),
    ensures
        a.len() == b.len(),
        n <= a.len(),
        forall|i: int|
            0 <= i < n ==> (#[trigger] a[i]).0@ == b[i].0@ && props_eqv(a[i].1, b[i].1),
    decreases n,
{
    if n > 0 {
        lemma_entries_eqv(a, b, (n - 1) as nat);
    }
}

/// Entries that are equivalent entry by entry are equivalent up to `n`.
pub proof fn lemma_entries_eqv_intro<K: View>(
    a: Seq<(K, ValueProperties)>,
    b: Seq<(K, ValueProperties)>,
    n: nat,
)
    requires
        a.len() == b.len(),
        n <= a.len(),
        forall|i: int|
            0 <= i < n ==> (#[trigger] a[i]).0@ == b[i].0@ && props_eqv(a[i].1, b[i].1),
    ensures
        entries_eqv(a, b, n),
    decreases n,
{
    if n > 0 {
        lemma_entries_eqv_intro(a, b, (n - 1) as nat);
    }
}

/// Equivalence of value properties is transitive.
pub proof fn lemma_props_eqv_trans(a: ValueProperties, b: ValueProperties, c: ValueProperties)
    requires
        props_eqv(a, b),
        props_eqv(b, c),
    ensures
        props_eqv(a, c),
    decreases a, 0nat,
{
    match (a, b, c) {
        (
            ValueProperties::Hashmap(x),
            ValueProperties::Hashmap(y),
            ValueProperties::Hashmap(z),
        ) => match (x.properties, y.properties, z.properties) {
            (Hashmap::Bool(m), Hashmap::Bool(n), Hashmap::Bool(o)) => {
                m.lemma_entries_decrease();
                lemma_entries_eqv(m.entries(), n.entries(), m.entries().len());
                lemma_entries_eqv_trans(m.entries(), n.entries(), o.entries(), m.entries().len());
            },
            (Hashmap::I64(m), Hashmap::I64(n), Hashmap::I64(o)) => {
                m.lemma_entries_decrease();
                lemma_entries_eqv(m.entries(), n.entries(), m.entries().len());
                lemma_entries_eqv_trans(m.entries(), n.entries(), o.entries(), m.entries().len());
            },
            (Hashmap::Str(m), Hashmap::Str(n), Hashmap::Str(o)) => {
                m.lemma_entries_decrease();
                lemma_entries_eqv(m.entries(), n.entries(), m.entries().len());
                lemma_entries_eqv_trans(m.entries(), n.entries(), o.entries(), m.entries().len());
            },
            _ => {},
        },
        (ValueProperties::Array(x), ValueProperties::Array(y), ValueProperties::Array(z)) => {
            lemma_array_props_eqv_trans(x, y, z);
        },
        _ => {},
    }
}

/// Equivalence of array properties is transitive.
pub proof fn lemma_array_props_eqv_trans(a: ArrayProperties, b: ArrayProperties, c: ArrayProperties)
    requires
        array_props_eqv(a, b),
        array_props_eqv(b, c),
    ensures
        array_props_eqv(a, c),
    decreases a, 0nat,
{
    match (a.aggregator, b.aggregator, c.aggregator) {
        (Some(x), Some(y), Some(z)) => {
            x.properties.lemma_entries_decrease();
            lemma_entries_eqv(
                x.properties.entries(),
                y.properties.entries(),
                x.properties.entries().len(),
            );
            lemma_entries_eqv_trans(
                x.properties.entries(),
                y.properties.entries(),
                z.properties.entries(),
                x.properties.entries().len(),
            );
        },
        _ => {},
    }
}

/// Equivalence of entries is transitive.
pub proof fn lemma_entries_eqv_trans<K: View>(
    a: Seq<(K, ValueProperties)>,
    b: Seq<(K, ValueProperties)>,
    c: Seq<(K, ValueProperties)>,
    n: nat,
)
    requires
        entries_eqv(a, b, n),
        entries_eqv(b, c, n),
    ensures
        entries_eqv(a, c, n),
    decreases a, n,
{
    if n > 0 && n <= a.len() {
        lemma_entries_eqv_trans(a, b, c, (n - 1) as nat);
        lemma_props_eqv_trans(a[n - 1].1, b[n - 1].1, c[n - 1].1);
    }
}

/// Equivalence of value properties is symmetric.
pub proof fn lemma_props_eqv_sym(a: ValueProperties, b: ValueProperties)
    requires
        props_eqv(a, b),
    ensures
        props_eqv(b, a),
    decreases a, 0nat,
{
    match (a, b) {
        (ValueProperties::Hashmap(x), ValueProperties::Hashmap(y)) => match (
            x.properties,
            y.properties,
        ) {
            (Hashmap::Bool(m), Hashmap::Bool(n)) => {
                m.lemma_entries_decrease();
                lemma_entries_eqv(m.entries(), n.entries(), m.entries().len());
                lemma_entries_eqv_sym(m.entries(), n.entries(), m.entries().len());
            },
            (Hashmap::I64(m), Hashmap::I64(n)) => {
                m.lemma_entries_decrease();
                lemma_entries_eqv(m.entries(), n.entries(), m.entries().len());
                lemma_entries_eqv_sym(m.entries(), n.entries(), m.entries().len());
            },
            (Hashmap::Str(m), Hashmap::Str(n)) => {
                m.lemma_entries_decrease();
                lemma_entries_eqv(m.entries(), n.entries(), m.entries().len());
                lemma_entries_eqv_sym(m.entries(), n.entries(), m.entries().len());
            },
            _ => {},
        },
        (ValueProperties::Array(x), ValueProperties::Array(y)) => lemma_array_props_eqv_sym(x, y),
        _ => {},
    }
}

/// Equivalence of array properties is symmetric.
pub proof fn lemma_array_props_eqv_sym(a: ArrayProperties, b: ArrayProperties)
    requires
        array_props_eqv(a, b),
    ensures
        array_props_eqv(b, a),
    decreases a, 0nat,
{
    match (a.aggregator, b.aggregator) {
        (Some(x), Some(y)) => {
            x.properties.lemma_entries_decrease();
            lemma_entries_eqv(
                x.properties.entries(),
                y.properties.entries(),
                x.properties.entries().len(),
            );
            lemma_entries_eqv_sym(
                x.properties.entries(),
                y.properties.entries(),
                x.properties.entries().len(),
            );
        },
        _ => {},
    }
}

/// Equivalence of entries is symmetric.
pub proof fn lemma_entries_eqv_sym<K: View>(
    a: Seq<(K, ValueProperties)>,
    b: Seq<(K, ValueProperties)>,
    n: nat,
)
    requires
        entries_eqv(a, b, n),
    ensures
        entries_eqv(b, a, n),
    decreases a, n,
{
    lemma_entries_eqv(a, b, n);
    if n > 0 {
        lemma_entries_eqv_sym(a, b, (n - 1) as nat);
        lemma_props_eqv_sym(a[n - 1].1, b[n - 1].1);
    }
}

/// Equivalence of value properties is reflexive.
pub proof fn lemma_props_eqv_refl(a: ValueProperties)
    ensures
        props_eqv(a, a),
    decreases a, 0nat,
{
    match a {
        ValueProperties::Hashmap(x) => match x.properties {
            Hashmap::Bool(m) => {
                m.lemma_entries_decrease();
                lemma_entries_eqv_refl(m.entries(), m.entries().len());
            },
            Hashmap::I64(m) => {
                m.lemma_entries_decrease();
                lemma_entries_eqv_refl(m.entries(), m.entries().len());
            },
            Hashmap::Str(m) => {
                m.lemma_entries_decrease();
                lemma_entries_eqv_refl(m.entries(), m.entries().len());
            },
        },
        ValueProperties::Array(x) => lemma_array_props_eqv_refl(x),
        ValueProperties::Jagged(_) => {},
    }
}

/// Equivalence of array properties is reflexive.
pub proof fn lemma_array_props_eqv_refl(a: ArrayProperties)
    ensures
        array_props_eqv(a, a),
    decreases a, 0nat,
{
    match a.aggregator {
        Some(x) => {
            x.properties.lemma_entries_decrease();
            lemma_entries_eqv_refl(x.properties.entries(), x.properties.entries().len());
        },
        None => {},
    }
}

/// Equivalence of entries is reflexive.
pub proof fn lemma_entries_eqv_refl<K: View>(a: Seq<(K, ValueProperties)>, n: nat)
    requires
        n <= a.len(),
    ensures
        entries_eqv(a, a, n),
    decreases a, n,
{
    if n > 0 {
        lemma_entries_eqv_refl(a, (n - 1) as nat);
        lemma_props_eqv_refl(a[n - 1].1);
    }
}

fn copy_bits(v: &Vec<Option<u64>>) -> (r: Vec<Option<u64>>)
    ensures
        r@ == v@,
{
    let mut r: Vec<Option<u64>> = Vec::new();
    let n = v.len();
    let mut i: usize = 0;
    while i < n
        invariant
            n == v@.len(),
            i <= n,
            r@.len() == i,
            forall|j: int| 0 <= j < i ==> r@[j] == v@[j],
        decreases n - i,
    {
        r.push(v[i]);
        i = i + 1;
    }
    assert(r@ =~= v@);
    r
}

fn copy_stability(v: &Vec<u64>) -> (r: Vec<u64>)
    ensures
        r@ == v@,
{
    let mut r: Vec<u64> = Vec::new();
    let n = v.len();
    let mut i: usize = 0;
    while i < n
        invariant
            n == v@.len(),
            i <= n,
            r@.len() == i,
            forall|j: int| 0 <= j < i ==> r@[j] == v@[j],
        decreases n - i,
    {
        r.push(v[i]);
        i = i + 1;
    }
    assert(r@ =~= v@);
    r
}

impl Clone for Nature {
    fn clone(&self) -> (r: Self)
        ensures
            nature_eqv(r, *self),
    {
        match self {
            Nature::Continuous(c) => Nature::Continuous(
                NatureContinuous { min: c.min.clone(), max: c.max.clone() },
            ),
            Nature::Categorical(c) => Nature::Categorical(
                NatureCategorical { categories: c.categories.clone() },
            ),
        }
    }
}

fn clone_entries<K: Scalar>(m: &KeyedMap<K, ValueProperties>) -> (r: KeyedMap<K, ValueProperties>)
    ensures
        entries_eqv(r.entries(), m.entries(), r.entries().len()),
    decreases *m, 0nat,
{
    let es = m.as_vec();
    let n = es.len();
    let mut r: Vec<(K, ValueProperties)> = Vec::new();
    let mut i: usize = 0;
    proof {
        m.lemma_entries_decrease();
    }
    while i < n
        invariant
            n == es@.len(),
            es@ == m.entries(),
            crate::keyed::keys_distinct(es@),
            decreases_to!(*m => m.entries()),
            i <= n,
            r@.len() == i,
            forall|j: int|
                0 <= j < i ==> (#[trigger] r@[j]).0@ == es@[j].0@ && props_eqv(r@[j].1, es@[j].1),
        decreases n - i,
    {
        proof {
            assert(decreases_to!(m.entries() => m.entries()[i as int]));
            assert(decreases_to!(m.entries()[i as int] => m.entries()[i as int].1));
        }
        let k = es[i].0.copied();
        let v = clone_value_properties(&es[i].1);
        r.push((k, v));
        i = i + 1;
    }
    proof {
        assert forall|a: int, b: int| 0 <= a < r@.len() && 0 <= b < r@.len() && a != b implies
            #[trigger] r@[a].0@ != #[trigger] r@[b].0@ by {
            assert(es@[a].0@ != es@[b].0@);
        }
        lemma_entries_eqv_intro(r@, es@, n as nat);
    }
    KeyedMap::from_distinct(r)
}

fn clone_value_properties(p: &ValueProperties) -> (r: ValueProperties)
    ensures
        props_eqv(r, *p),
    decreases *p, 1nat,
{
    match p {
        ValueProperties::Hashmap(h) => {
            let properties = match &h.properties {
                Hashmap::Bool(m) => Hashmap::Bool(clone_entries(m)),
                Hashmap::I64(m) => Hashmap::I64(clone_entries(m)),
                Hashmap::Str(m) => Hashmap::Str(clone_entries(m)),
            };
            ValueProperties::Hashmap(
                HashmapProperties {
                    num_records: h.num_records,
                    disjoint: h.disjoint,
                    properties,
                    columnar: h.columnar,
                },
            )
        },
        ValueProperties::Array(a) => ValueProperties::Array(clone_array_properties(a)),
        ValueProperties::Jagged(j) => ValueProperties::Jagged(*j),
    }
}

fn clone_array_properties(p: &ArrayProperties) -> (r: ArrayProperties)
    ensures
        array_props_eqv(r, *p),
    decreases *p, 1nat,
{
    let aggregator = match &p.aggregator {
        Some(g) => Some(
            AggregatorProperties { component: g.component, properties: clone_entries(&g.properties) },
        ),
        None => None,
    };
    let nature = match &p.nature {
        Some(n) => Some(n.clone()),
        None => None,
    };
    ArrayProperties {
        num_records: p.num_records,
        num_columns: p.num_columns,
        nullity: p.nullity,
        releasable: p.releasable,
        c_stability: copy_stability(&p.c_stability),
        aggregator,
        nature,
        data_type: p.data_type,
        dataset_id: p.dataset_id,
    }
}

impl Clone for ValueProperties {
    fn clone(&self) -> (r: Self)
        ensures
            props_eqv(r, *self),
    {
        clone_value_properties(self)
    }
}

impl Clone for ArrayProperties {
    fn clone(&self) -> (r: Self)
        ensures
            array_props_eqv(r, *self),
    {
        clone_array_properties(self)
    }
}

impl Clone for HashmapProperties {
    fn clone(&self) -> (r: Self)
        ensures
            props_eqv(ValueProperties::Hashmap(r), ValueProperties::Hashmap(*self)),
    {
        let properties = match &self.properties {
            Hashmap::Bool(m) => Hashmap::Bool(clone_entries(m)),
            Hashmap::I64(m) => Hashmap::I64(clone_entries(m)),
            Hashmap::Str(m) => Hashmap::Str(clone_entries(m)),
        };
        HashmapProperties {
            num_records: self.num_records,
            disjoint: self.disjoint,
            properties,
            columnar: self.columnar,
        }
    }
}

impl Clone for AggregatorProperties {
    fn clone(&self) -> (r: Self)
        ensures
            r.component == self.component,
            node_props_eqv(r.properties, self.properties),
    {
        AggregatorProperties { component: self.component, properties: clone_entries(&self.properties) }
    }
}

impl Clone for NatureContinuous {
    fn clone(&self) -> (r: Self)
        ensures
            vector_eqv(r.min, self.min),
            vector_eqv(r.max, self.max),
    {
        NatureContinuous { min: self.min.clone(), max: self.max.clone() }
    }
}

impl Clone for NatureCategorical {
    fn clone(&self) -> (r: Self)
        ensures
            jagged_eqv(r.categories, self.categories),
    {
        NatureCategorical { categories: self.categories.clone() }
    }
}

/// A copy of the properties of the arguments of a node.
pub fn clone_node_properties(p: &NodeProperties) -> (r: NodeProperties)
    ensures
        node_props_eqv(r, *p),
{
    clone_entries(p)
}

/// A vector result that matches a sequence result: the same elements, or the same error.
pub open spec fn vec_result<T>(r: Result<Vec<T>, Error>, s: Result<Seq<T>, Error>) -> bool {
    match s {
        Ok(q) => r matches Ok(v) && v@ == q,
        Err(e) => r == Err::<Vec<T>, Error>(e),
    }
}

/// The known elements of a sequence, in order.
pub open spec fn somes(s: Seq<Option<u64>>) -> Seq<u64>
    decreases s.len(),
{
    if s.len() == 0 {
        Seq::empty()
    } else {
        match s.last() {
            Some(x) => somes(s.drop_last()).push(x),
            None => somes(s.drop_last()),
        }
    }
}

proof fn lemma_somes(s: Seq<Option<u64>>)
    ensures
        somes(s).len() <= s.len(),
        somes(s).len() == s.len() <==> all_defined(s),
        all_defined(s) ==> somes(s) == s.map_values(|o: Option<u64>| o->0),
    decreases s.len(),
{
    if s.len() > 0 {
        let t = s.drop_last();
        lemma_somes(t);
        if all_defined(s) {
            assert(all_defined(t)) by {
                assert forall|i: int| 0 <= i < t.len() implies (#[trigger] t[i]) is Some by {
                    assert(t[i] == s[i]);
                }
            }
            assert(somes(s) =~= s.map_values(|o: Option<u64>| o->0));
        }
        if !all_defined(s) && all_defined(t) {
            assert(s.last() is None) by {
                let i = choose|i: int| 0 <= i < s.len() && !(s[i] is Some);
                if i < s.len() - 1 {
                    assert(t[i] == s[i]);
                }
            }
        }
        if !all_defined(t) {
            let i = choose|i: int| 0 <= i < t.len() && !(t[i] is Some);
            assert(s[i] == t[i]);
        }
    }
}

/// The elements of a sequence whose elements are all known; `err` otherwise.
pub open spec fn known_bounds(s: Seq<Option<u64>>, err: Error) -> Result<Seq<u64>, Error> {
    if all_defined(s) {
        Ok(s.map_values(|o: Option<u64>| o->0))
    } else {
        Err(err)
    }
}

fn known_elements(bound: &Vec<Option<u64>>) -> (r: Option<Vec<u64>>)
    ensures
        r is Some <==> all_defined(bound@),
        r matches Some(v) ==> v@ == bound@.map_values(|o: Option<u64>| o->0),
{
    let mut value: Vec<u64> = Vec::new();
    let n = bound.len();
    let mut i: usize = 0;
    while i < n
        invariant
            n == bound@.len(),
            i <= n,
            value@ == somes(bound@.take(i as int)),
        decreases n - i,
    {
        assert(bound@.take(i + 1).drop_last() =~= bound@.take(i as int));
        match bound[i] {
            Some(x) => value.push(x),
            None => {},
        }
        i = i + 1;
    }
    assert(bound@.take(n as int) =~= bound@);
    proof {
        lemma_somes(bound@);
    }
    if bound.len() == value.len() {
        Some(value)
    } else {
        None
    }
}

/// The column lengths of a standardized set of categories.
pub open spec fn lengths_of_result<V>(r: Result<Seq<Seq<V>>, Error>) -> Result<Seq<i64>, Error> {
    match r {
        Ok(s) => Ok(s.map_values(|c: Seq<V>| c.len() as i64)),
        Err(e) => Err(e),
    }
}

/// The number of categories of each of `n` columns, where the categories are standardized.
pub open spec fn standardized_lengths(j: Jagged, n: i64) -> Result<Seq<i64>, Error> {
    match j {
        Jagged::Bool(c) => lengths_of_result(standardized_categories(c@, n)),
        Jagged::I64(c) => lengths_of_result(standardized_categories(c@, n)),
        Jagged::F64(c) => lengths_of_result(standardized_categories(c@, n)),
        Jagged::Str(c) => lengths_of_result(standardized_categories(c@, n)),
    }
}

fn lengths_of_columns<T: Scalar>(c: &Vec<Vec<T>>) -> (r: Vec<i64>)
    ensures
        r@ == crate::jagged::columns_view(c@).map_values(|v: Seq<T::V>| v.len() as i64),
{
    let mut r: Vec<i64> = Vec::new();
    let n = c.len();
    let mut i: usize = 0;
    while i < n
        invariant
            n == c@.len(),
            i <= n,
            r@.len() == i,
            forall|j: int| 0 <= j < i ==> r@[j] == c@[j]@.len() as i64,
        decreases n - i,
    {
        r.push(c[i].len() as i64);
        i = i + 1;
    }
    assert(r@ =~= crate::jagged::columns_view(c@).map_values(|v: Seq<T::V>| v.len() as i64));
    r
}

fn standardized_lengths_of<T: Scalar>(c: &Vec<Option<Vec<T>>>, n: i64) -> (r: Result<
    Vec<i64>,
    Error,
>)
    ensures
        vec_result(r, lengths_of_result(standardized_categories(c@, n))),
{
    let s = standardize_categorical_argument(c, &n)?;
    Ok(lengths_of_columns(&s))
}

fn ones(n: i64) -> (r: Vec<i64>)
    ensures
        r@ == repeated(1i64, n),
{
    let mut r: Vec<i64> = Vec::new();
    let mut i: i64 = 0;
    while i < n
        invariant
            0 <= i,
            n > 0 ==> i <= n,
            n <= 0 ==> i == 0,
            r@.len() == i,
            forall|j: int| 0 <= j < i ==> r@[j] == 1i64,
        decreases n - i,
    {
        r.push(1);
        i = i + 1;
    }
    assert(r@ =~= repeated(1i64, n));
    r
}

impl ValueProperties {
    /// The array properties, where these are properties of an array.
    pub fn array(&self) -> (r: Result<&ArrayProperties, Error>)
        ensures
            match *self {
                ValueProperties::Array(a) => r == Ok::<&ArrayProperties, Error>(&a),
                _ => r == Err::<&ArrayProperties, Error>(Error::PropertiesMustBeArray),
            },
    {
        match self {
            ValueProperties::Array(array) => Ok(array),
            _ => Err(Error::PropertiesMustBeArray),
        }
    }

    /// The hash-map properties, where these are properties of a hash-map.
    pub fn hashmap(&self) -> (r: Result<&HashmapProperties, Error>)
        ensures
            match *self {
                ValueProperties::Hashmap(h) => r == Ok::<&HashmapProperties, Error>(&h),
                _ => r == Err::<&HashmapProperties, Error>(Error::PropertiesMustBeHashmap),
            },
    {
        match self {
            ValueProperties::Hashmap(value) => Ok(value),
            _ => Err(Error::PropertiesMustBeHashmap),
        }
    }

    /// The jagged properties, where these are properties of a jagged matrix.
    pub fn jagged(&self) -> (r: Result<&JaggedProperties, Error>)
        ensures
            match *self {
                ValueProperties::Jagged(j) => r == Ok::<&JaggedProperties, Error>(&j),
                _ => r == Err::<&JaggedProperties, Error>(Error::PropertiesMustBeJagged),
            },
    {
        match self {
            ValueProperties::Jagged(value) => Ok(value),
            _ => Err(Error::PropertiesMustBeJagged),
        }
    }
}

impl HashmapProperties {
    /// Succeeds where the partitions are disjoint.
    pub fn assert_is_disjoint(&self) -> (r: Result<(), Error>)
        ensures
            r == if self.disjoint {
                Ok::<(), Error>(())
            } else {
                Err(Error::PartitionsMustBeDisjoint)
            },
    {
        match self.disjoint {
            false => Err(Error::PartitionsMustBeDisjoint),
            true => Ok(()),
        }
    }

    /// Succeeds where the hash-map is not columnar.
    pub fn assert_is_not_columnar(&self) -> (r: Result<(), Error>)
        ensures
            r == if self.columnar {
                Err::<(), Error>(Error::PartitionsMustNotBeColumnar)
            } else {
                Ok(())
            },
    {
        match self.columnar {
            true => Err(Error::PartitionsMustNotBeColumnar),
            false => Ok(()),
        }
    }

    /// The global number of records, where known.
    pub fn num_records(&self) -> (r: Result<i64, Error>)
        ensures
            r == match self.num_records {
                Some(n) => Ok::<i64, Error>(n),
                None => Err(Error::NumRowsNotDefined),
            },
    {
        match self.num_records {
            Some(n) => Ok(n),
            None => Err(Error::NumRowsNotDefined),
        }
    }
}

impl ArrayProperties {
    /// What `min_f64_option` gives back.
    pub open spec fn spec_min_option(self) -> Result<Seq<Option<u64>>, Error> {
        match self.nature {
            Some(Nature::Continuous(c)) => match c.min {
                Vector1DNull::F64(b) => Ok(b@),
                _ => Err(Error::MinMustBeFloats),
            },
            Some(Nature::Categorical(_)) => Err(Error::MinMustBeArray),
            None => Err(Error::MinNatureNotDefined),
        }
    }

    /// What `max_f64_option` gives back.
    pub open spec fn spec_max_option(self) -> Result<Seq<Option<u64>>, Error> {
        match self.nature {
            Some(Nature::Continuous(c)) => match c.max {
                Vector1DNull::F64(b) => Ok(b@),
                _ => Err(Error::MaxMustBeFloats),
            },
            Some(Nature::Categorical(_)) => Err(Error::MaxMustBeArray),
            None => Err(Error::MaxNatureNotDefined),
        }
    }

    /// What `min_f64` gives back.
    pub open spec fn spec_min(self) -> Result<Seq<u64>, Error> {
        match self.spec_min_option() {
            Ok(b) => known_bounds(b, Error::NotAllMinKnown),
            Err(e) => Err(e),
        }
    }

    /// What `max_f64` gives back.
    pub open spec fn spec_max(self) -> Result<Seq<u64>, Error> {
        match self.spec_max_option() {
            Ok(b) => known_bounds(b, Error::NotAllMaxKnown),
            Err(e) => Err(e),
        }
    }

    /// The lower bound of each column (as bit patterns), where the nature is
    /// continuous with floating-point bounds.
    pub fn min_f64_option(&self) -> (r: Result<Vec<Option<u64>>, Error>)
        ensures
            vec_result(r, self.spec_min_option()),
    {
        match &self.nature {
            Some(value) => match value {
                Nature::Continuous(continuous) => match &continuous.min {
                    Vector1DNull::F64(bound) => Ok(copy_bits(bound)),
                    _ => Err(Error::MinMustBeFloats),
                },
                _ => Err(Error::MinMustBeArray),
            },
            None => Err(Error::MinNatureNotDefined),
        }
    }

    /// The lower bound of each column, where all of them are known.
    pub fn min_f64(&self) -> (r: Result<Vec<u64>, Error>)
        ensures
            vec_result(r, self.spec_min()),
    {
        let bound = self.min_f64_option()?;
        match known_elements(&bound) {
            Some(value) => Ok(value),
            None => Err(Error::NotAllMinKnown),
        }
    }

    /// The upper bound of each column (as bit patterns), where the nature is
    /// continuous with floating-point bounds.
    pub fn max_f64_option(&self) -> (r: Result<Vec<Option<u64>>, Error>)
        ensures
            vec_result(r, self.spec_max_option()),
    {
        match &self.nature {
            Some(value) => match value {
                Nature::Continuous(continuous) => match &continuous.max {
                    Vector1DNull::F64(bound) => Ok(copy_bits(bound)),
                    _ => Err(Error::MaxMustBeFloats),
                },
                _ => Err(Error::MaxMustBeArray),
            },
            None => Err(Error::MaxNatureNotDefined),
        }
    }

    /// The upper bound of each column, where all of them are known.
    pub fn max_f64(&self) -> (r: Result<Vec<u64>, Error>)
        ensures
            vec_result(r, self.spec_max()),
    {
        let bound = self.max_f64_option()?;
        match known_elements(&bound) {
            Some(value) => Ok(value),
            None => Err(Error::NotAllMaxKnown),
        }
    }

    /// The categories of each column, where the nature is categorical.
    pub fn categories(&self) -> (r: Result<Jagged, Error>)
        ensures
            match self.nature {
                Some(Nature::Categorical(n)) => r matches Ok(j) && jagged_eqv(j, n.categories),
                Some(Nature::Continuous(_)) => r == Err::<Jagged, Error>(
                    Error::CategoriesNotDefined,
                ),
                None => r == Err::<Jagged, Error>(Error::CategoricalNatureNotDefined),
            },
    {
        match &self.nature {
            Some(nature) => match nature {
                Nature::Categorical(nature) => Ok(nature.categories.clone()),
                _ => Err(Error::CategoriesNotDefined),
            },
            None => Err(Error::CategoricalNatureNotDefined),
        }
    }

    /// What `categories_lengths` gives back.
    pub open spec fn spec_categories_lengths(self) -> Result<Seq<i64>, Error> {
        match self.num_columns {
            None => Err(Error::NumColumnsNotDefined),
            Some(n) => match self.nature {
                Some(Nature::Categorical(c)) => standardized_lengths(c.categories, n),
                _ => Ok(repeated(1i64, n)),
            },
        }
    }

    /// The number of categories of each column: where the nature is not
    /// categorical, one per column.
    pub fn categories_lengths(&self) -> (r: Result<Vec<i64>, Error>)
        ensures
            vec_result(r, self.spec_categories_lengths()),
    {
        let num_columns = self.num_columns()?;
        match self.categories() {
            Ok(categories) => {
                let ghost cats_before = categories_of(self.nature, categories);
                let r = match &categories {
                    Jagged::Str(categories) => standardized_lengths_of(categories, num_columns),
                    Jagged::Bool(categories) => standardized_lengths_of(categories, num_columns),
                    Jagged::I64(categories) => standardized_lengths_of(categories, num_columns),
                    Jagged::F64(categories) => standardized_lengths_of(categories, num_columns),
                };
                proof {
                    lemma_standardized_lengths_eqv(categories, cats_before, num_columns);
                }
                r
            },
            Err(_) => Ok(ones(num_columns)),
        }
    }

    /// Succeeds where the categories of every column are known.
    pub fn assert_categorical(&self) -> (r: Result<(), Error>)
        ensures
            r == match self.spec_categories_lengths() {
                Ok(_) => Ok::<(), Error>(()),
                Err(e) => Err(e),
            },
    {
        self.categories_lengths()?;
        Ok(())
    }

    /// Succeeds where the data has no null values.
    pub fn assert_non_null(&self) -> (r: Result<(), Error>)
        ensures
            r == if self.nullity {
                Err::<(), Error>(Error::MayContainNullity)
            } else {
                Ok(())
            },
    {
        match self.nullity {
            false => Ok(()),
            true => Err(Error::MayContainNullity),
        }
    }

    /// Succeeds exactly where the data is marked releasable.
    pub fn assert_is_releasable(&self) -> (r: Result<(), Error>)
        ensures
            r == if self.releasable {
                Ok::<(), Error>(())
            } else {
                Err(Error::NotReleasable)
            },
    {
        match self.releasable {
            true => Ok(()),
            false => Err(Error::NotReleasable),
        }
    }

    /// The number of columns, where known.
    pub fn num_columns(&self) -> (r: Result<i64, Error>)
        ensures
            r == match self.num_columns {
                Some(n) => Ok::<i64, Error>(n),
                None => Err(Error::NumColumnsNotDefined),
            },
    {
        match self.num_columns {
            Some(n) => Ok(n),
            None => Err(Error::NumColumnsNotDefined),
        }
    }

    /// The number of records, where known.
    pub fn num_records(&self) -> (r: Result<i64, Error>)
        ensures
            r == match self.num_records {
                Some(n) => Ok::<i64, Error>(n),
                None => Err(Error::NumRecordsNotDefined),
            },
    {
        match self.num_records {
            Some(n) => Ok(n),
            None => Err(Error::NumRecordsNotDefined),
        }
    }

    /// Succeeds where the data has not been aggregated.
    pub fn assert_is_not_aggregated(&self) -> (r: Result<(), Error>)
        ensures
            r == if self.aggregator is Some {
                Err::<(), Error>(Error::AggregatedData)
            } else {
                Ok(())
            },
    {
        match &self.aggregator {
            Some(_aggregator) => Err(Error::AggregatedData),
            None => Ok(()),
        }
    }
}

/// The categories of a categorical nature; `other` for any other nature.
pub open spec fn categories_of(nature: Option<Nature>, other: Jagged) -> Jagged {
    match nature {
        Some(Nature::Categorical(c)) => c.categories,
        _ => other,
    }
}

proof fn lemma_standardized_lengths_eqv(a: Jagged, b: Jagged, n: i64)
    requires
        jagged_eqv(a, b),
    ensures
        standardized_lengths(a, n) == standardized_lengths(b, n),
{
    match (a, b) {
        (Jagged::Bool(x), Jagged::Bool(y)) => lemma_standardized_categories_eqv(x@, y@, n),
        (Jagged::I64(x), Jagged::I64(y)) => lemma_standardized_categories_eqv(x@, y@, n),
        (Jagged::F64(x), Jagged::F64(y)) => lemma_standardized_categories_eqv(x@, y@, n),
        (Jagged::Str(x), Jagged::Str(y)) => lemma_standardized_categories_eqv(x@, y@, n),
        _ => {},
    }
}

proof fn lemma_standardized_categories_eqv<T: View>(
    a: Seq<Option<Vec<T>>>,
    b: Seq<Option<Vec<T>>>,
    n: i64,
)
    requires
        optional_columns_view(a) == optional_columns_view(b),
    ensures
        standardized_categories(a, n) == standardized_categories(b, n),
{
    assert(a.len() == optional_columns_view(a).len());
    assert(b.len() == optional_columns_view(b).len());
    assert forall|i: int| 0 <= i < a.len() implies (a[i] is Some <==> b[i] is Some) && (a[i] is Some
        ==> seq_view(a[i]->0@) == seq_view(b[i]->0@)) by {
        assert(optional_columns_view(a)[i] == optional_columns_view(b)[i]);
    }
    assert(all_defined(a) <==> all_defined(b));
    assert(defined_columns_view(a) =~= defined_columns_view(b));
}

impl Nature {
    /// The bounds, where the nature is continuous.
    pub fn continuous(&self) -> (r: Result<&NatureContinuous, Error>)
        ensures
            match *self {
                Nature::Continuous(c) => r == Ok::<&NatureContinuous, Error>(&c),
                _ => r == Err::<&NatureContinuous, Error>(Error::NatureIsCategorical),
            },
    {
        match self {
            Nature::Continuous(continuous) => Ok(continuous),
            _ => Err(Error::NatureIsCategorical),
        }
    }

    /// The categories, where the nature is categorical.
    pub fn categorical(&self) -> (r: Result<&NatureCategorical, Error>)
        ensures
            match *self {
                Nature::Categorical(c) => r == Ok::<&NatureCategorical, Error>(&c),
                _ => r == Err::<&NatureCategorical, Error>(Error::NatureIsContinuous),
            },
    {
        match self {
            Nature::Categorical(categorical) => Ok(categorical),
            _ => Err(Error::NatureIsContinuous),
        }
    }
}

/// The lower bounds of an array are given back exactly where its nature is
/// continuous with floating-point lower bounds and every column's lower
/// bound is known; they are then one per column, in column order. Where a
/// column's lower bound is unknown the answer is the "not all min are
/// known" error. The upper bounds behave the same way.
pub proof fn lemma_known_bounds_per_column(p: ArrayProperties)
    ensures
        match p.nature {
            Some(Nature::Continuous(c)) => match c.min {
                Vector1DNull::F64(b) => {
                    &&& (p.spec_min() is Ok <==> forall|i: int| 0 <= i < b@.len() ==> (#[trigger] b@[i]) is Some)
                    &&& (!(forall|i: int| 0 <= i < b@.len() ==> (#[trigger] b@[i]) is Some)
                        ==> p.spec_min() == Err::<Seq<u64>, Error>(Error::NotAllMinKnown))
                    &&& (p.spec_min() matches Ok(v) ==> v.len() == b@.len() && forall|i: int|
                        0 <= i < b@.len() ==> #[trigger] b@[i] == Some(v[i]))
                },
                _ => p.spec_min() is Err,
            },
            _ => p.spec_min() is Err,
        },
        match p.nature {
            Some(Nature::Continuous(c)) => match c.max {
                Vector1DNull::F64(b) => {
                    &&& (p.spec_max() is Ok <==> forall|i: int| 0 <= i < b@.len() ==> (#[trigger] b@[i]) is Some)
                    &&& (!(forall|i: int| 0 <= i < b@.len() ==> (#[trigger] b@[i]) is Some)
                        ==> p.spec_max() == Err::<Seq<u64>, Error>(Error::NotAllMaxKnown))
                    &&& (p.spec_max() matches Ok(v) ==> v.len() == b@.len() && forall|i: int|
                        0 <= i < b@.len() ==> #[trigger] b@[i] == Some(v[i]))
                },
                _ => p.spec_max() is Err,
            },
            _ => p.spec_max() is Err,
        },
{
}

} // verus!
