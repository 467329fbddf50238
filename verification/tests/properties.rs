use whitenoise::component::{Component, Sum};
use whitenoise::error::Error;
use whitenoise::hashmap::Hashmap;
use whitenoise::jagged::{Jagged, Vector1DNull};
use whitenoise::keyed::KeyedMap;
use whitenoise::properties::{
    AggregatorProperties, ArrayProperties, DataType, HashmapProperties, JaggedProperties, Nature,
    NatureCategorical, NatureContinuous, ValueProperties,
};
use whitenoise::utilities::standardize_categorical_argument;

fn base() -> ArrayProperties {
    ArrayProperties {
        num_records: Some(10),
        num_columns: Some(2),
        nullity: false,
        releasable: false,
        c_stability: vec![1.0f64.to_bits()],
        aggregator: None,
        nature: None,
        data_type: DataType::F64,
        dataset_id: Some(3),
    }
}

fn continuous(min: Vec<Option<f64>>, max: Vec<Option<f64>>) -> Option<Nature> {
    let bits = |v: Vec<Option<f64>>| v.into_iter().map(|x| x.map(|y| y.to_bits())).collect();
    Some(Nature::Continuous(NatureContinuous {
        min: Vector1DNull::F64(bits(min)),
        max: Vector1DNull::F64(bits(max)),
    }))
}

#[test]
fn min_and_max_bounds() {
    let mut p = base();
    p.nature = continuous(vec![Some(0.0), Some(-1.0)], vec![Some(5.0), None]);
    assert_eq!(p.min_f64(), Ok(vec![0.0f64.to_bits(), (-1.0f64).to_bits()]));
    assert_eq!(p.max_f64_option(), Ok(vec![Some(5.0f64.to_bits()), None]));
    assert_eq!(p.max_f64(), Err(Error::NotAllMaxKnown));
}

#[test]
fn bounds_errors() {
    let p = base();
    assert_eq!(p.min_f64_option(), Err(Error::MinNatureNotDefined));
    assert_eq!(p.max_f64(), Err(Error::MaxNatureNotDefined));
    let mut q = base();
    q.nature = Some(Nature::Categorical(NatureCategorical { categories: Jagged::I64(vec![]) }));
    assert_eq!(q.min_f64(), Err(Error::MinMustBeArray));
    assert_eq!(q.max_f64(), Err(Error::MaxMustBeArray));
    let mut r = base();
    r.nature = Some(Nature::Continuous(NatureContinuous {
        min: Vector1DNull::I64(vec![Some(0)]),
        max: Vector1DNull::I64(vec![Some(1)]),
    }));
    assert_eq!(r.min_f64(), Err(Error::MinMustBeFloats));
    assert_eq!(r.max_f64(), Err(Error::MaxMustBeFloats));
    let mut s = base();
    s.nature = continuous(vec![None], vec![Some(1.0)]);
    assert_eq!(s.min_f64(), Err(Error::NotAllMinKnown));
}

#[test]
fn categories_and_their_lengths() {
    let mut p = base();
    p.nature = Some(Nature::Categorical(NatureCategorical {
        categories: Jagged::Str(vec![Some(vec!["a".to_string(), "b".to_string(), "c".to_string()])]),
    }));
    assert!(p.categories().is_ok());
    // a single set of categories is broadcast to every column
    assert_eq!(p.categories_lengths(), Ok(vec![3, 3]));
    assert_eq!(p.assert_categorical(), Ok(()));
    let mut q = base();
    q.nature = Some(Nature::Categorical(NatureCategorical {
        categories: Jagged::I64(vec![Some(vec![1]), Some(vec![1, 2, 3, 4])]),
    }));
    assert_eq!(q.categories_lengths(), Ok(vec![1, 4]));
}

#[test]
fn categories_lengths_without_categories_is_one_per_column() {
    let p = base();
    assert!(matches!(p.categories(), Err(Error::CategoricalNatureNotDefined)));
    assert_eq!(p.categories_lengths(), Ok(vec![1, 1]));
    let mut q = base();
    q.nature = continuous(vec![Some(0.0)], vec![Some(1.0)]);
    assert!(matches!(q.categories(), Err(Error::CategoriesNotDefined)));
    assert_eq!(q.categories_lengths(), Ok(vec![1, 1]));
    let mut r = base();
    r.num_columns = None;
    assert_eq!(r.categories_lengths(), Err(Error::NumColumnsNotDefined));
    assert_eq!(r.assert_categorical(), Err(Error::NumColumnsNotDefined));
}

#[test]
fn categories_lengths_errors_of_standardization() {
    let mut p = base();
    p.nature = Some(Nature::Categorical(NatureCategorical {
        categories: Jagged::Bool(vec![Some(vec![true]), None]),
    }));
    assert_eq!(p.categories_lengths(), Err(Error::CategoriesNotDefinedForAllColumns));
    let mut q = base();
    q.nature = Some(Nature::Categorical(NatureCategorical { categories: Jagged::Bool(vec![]) }));
    assert_eq!(q.categories_lengths(), Err(Error::NoCategoriesDefined));
}

#[test]
fn standardize_broadcasts_one_column() {
    let c = vec![Some(vec![1i64, 2])];
    assert_eq!(standardize_categorical_argument(&c, &3), Ok(vec![vec![1, 2]; 3]));
    assert_eq!(standardize_categorical_argument(&c, &0), Ok(vec![]));
    let d = vec![Some(vec![1i64]), Some(vec![2, 3])];
    assert_eq!(standardize_categorical_argument(&d, &5), Ok(vec![vec![1], vec![2, 3]]));
}

#[test]
fn assertions_on_array_properties() {
    let mut p = base();
    assert_eq!(p.assert_non_null(), Ok(()));
    assert_eq!(p.assert_is_releasable(), Err(Error::NotReleasable));
    assert_eq!(p.assert_is_not_aggregated(), Ok(()));
    assert_eq!(p.num_columns(), Ok(2));
    assert_eq!(p.num_records(), Ok(10));
    p.nullity = true;
    p.releasable = true;
    p.num_records = None;
    p.aggregator = Some(AggregatorProperties {
        component: Component::Sum(Sum),
        properties: KeyedMap::new(),
    });
    assert_eq!(p.assert_non_null(), Err(Error::MayContainNullity));
    assert_eq!(p.assert_is_releasable(), Ok(()));
    assert_eq!(p.assert_is_not_aggregated(), Err(Error::AggregatedData));
    assert_eq!(p.num_records(), Err(Error::NumRecordsNotDefined));
}

#[test]
fn hashmap_properties_assertions() {
    let h = HashmapProperties {
        num_records: None,
        disjoint: false,
        properties: Hashmap::I64(KeyedMap::new()),
        columnar: true,
    };
    assert_eq!(h.assert_is_disjoint(), Err(Error::PartitionsMustBeDisjoint));
    assert_eq!(h.assert_is_not_columnar(), Err(Error::PartitionsMustNotBeColumnar));
    assert_eq!(h.num_records(), Err(Error::NumRowsNotDefined));
    let g = HashmapProperties { num_records: Some(4), disjoint: true, columnar: false, ..h };
    assert_eq!(g.assert_is_disjoint(), Ok(()));
    assert_eq!(g.assert_is_not_columnar(), Ok(()));
    assert_eq!(g.num_records(), Ok(4));
}

#[test]
fn value_properties_accessors() {
    let j = ValueProperties::Jagged(JaggedProperties { releasable: true });
    assert!(j.jagged().is_ok());
    assert_eq!(j.array().unwrap_err(), Error::PropertiesMustBeArray);
    assert_eq!(j.hashmap().unwrap_err(), Error::PropertiesMustBeHashmap);
    let a = ValueProperties::Array(base());
    assert_eq!(a.jagged().unwrap_err(), Error::PropertiesMustBeJagged);
    assert_eq!(a.array().unwrap().num_records, Some(10));
}

#[test]
fn nature_accessors() {
    let n = continuous(vec![], vec![]).unwrap();
    assert!(n.continuous().is_ok());
    assert_eq!(n.categorical().unwrap_err(), Error::NatureIsContinuous);
    let c = Nature::Categorical(NatureCategorical { categories: Jagged::Bool(vec![]) });
    assert_eq!(c.continuous().unwrap_err(), Error::NatureIsCategorical);
}

#[test]
fn clones_keep_the_content() {
    let mut p = base();
    let mut snapshot: KeyedMap<String, ValueProperties> = KeyedMap::new();
    snapshot.insert("data".to_string(), ValueProperties::Array(base()));
    p.aggregator = Some(AggregatorProperties { component: Component::Sum(Sum), properties: snapshot });
    let q = p.clone();
    assert_eq!(format!("{:?}", p), format!("{:?}", q));
}
