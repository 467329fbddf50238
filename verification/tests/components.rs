use whitenoise::array::Array;
use whitenoise::component::{
    Component, Count, Materialize, Minimum, Neighboring, Partition, PrivacyDefinition, Sum,
};
use whitenoise::components::count::count;
use whitenoise::components::partition::broadcast_partitions;
use whitenoise::components::{PublicArguments, RowSensitivity};
use whitenoise::error::{ArgumentName, Error};
use whitenoise::hashmap::Hashmap;
use whitenoise::jagged::{Jagged, Vector1DNull};
use whitenoise::keyed::KeyedMap;
use whitenoise::nd::NdArray;
use whitenoise::properties::{
    AggregatorProperties, ArrayProperties, DataType, Nature, NatureCategorical, NatureContinuous,
    NodeProperties, SensitivitySpace, ValueProperties,
};
use whitenoise::value::Value;

fn data(records: Option<i64>) -> ArrayProperties {
    ArrayProperties {
        num_records: records,
        num_columns: Some(2),
        nullity: false,
        releasable: false,
        c_stability: vec![1.0f64.to_bits()],
        aggregator: None,
        nature: Some(Nature::Continuous(NatureContinuous {
            min: Vector1DNull::F64(vec![Some((-1.0f64).to_bits()), Some(0.0f64.to_bits())]),
            max: Vector1DNull::F64(vec![Some(3.0f64.to_bits()), Some(2.0f64.to_bits())]),
        })),
        data_type: DataType::F64,
        dataset_id: Some(1),
    }
}

fn node(p: ArrayProperties) -> NodeProperties {
    let mut m: NodeProperties = KeyedMap::new();
    m.insert("data".to_string(), ValueProperties::Array(p));
    m
}

fn scalar(v: i64) -> Value {
    Value::Array(Array::I64(NdArray::from_shape_vec(vec![], vec![v]).unwrap()))
}

fn no_arguments() -> PublicArguments {
    KeyedMap::new()
}

const SUBSTITUTE: PrivacyDefinition = PrivacyDefinition { neighboring: 0 };
const ADD_REMOVE: PrivacyDefinition = PrivacyDefinition { neighboring: 1 };

#[test]
fn count_gives_number_of_rows() {
    let a = NdArray::from_shape_vec(vec![2, 3], vec![false, false, true, true, true, true]).unwrap();
    let n = count(&a).unwrap();
    assert_eq!(n.ndim(), 0);
    assert_eq!(n.first(), Some(&2));
}

#[test]
fn count_evaluate() {
    let mut args: PublicArguments = KeyedMap::new();
    args.insert(
        "data".to_string(),
        Value::Array(Array::Str(NdArray::from_shape_vec(vec![3], vec!["a".to_string(); 3]).unwrap())),
    );
    match Count.evaluate(&args).unwrap() {
        Value::Array(Array::I64(c)) => assert_eq!(c.data(), &vec![3]),
        other => panic!("unexpected {:?}", other),
    }
    assert_eq!(
        Count.evaluate(&no_arguments()).unwrap_err(),
        Error::ArgumentNotDefined("data".to_string())
    );
    let mut bad: PublicArguments = KeyedMap::new();
    bad.insert("data".to_string(), Value::Jagged(Jagged::Bool(vec![])));
    assert_eq!(Count.evaluate(&bad).unwrap_err(), Error::ValueMustBeArray);
}

#[test]
fn minimum_aggregates_to_one_record() {
    let props = node(data(Some(10)));
    let r = Minimum.propagate_property(&SUBSTITUTE, &no_arguments(), &props).unwrap();
    let p = r.array().unwrap();
    assert_eq!(p.num_records, Some(1));
    assert!(p.nature.is_some());
    let g = p.aggregator.as_ref().unwrap();
    assert_eq!(g.component, Component::Minimum(Minimum));
    assert_eq!(g.properties.len(), 1);
    // aggregated data may not be aggregated again
    let again = node(p.clone());
    assert_eq!(
        Minimum.propagate_property(&SUBSTITUTE, &no_arguments(), &again).unwrap_err(),
        Error::AggregatedData
    );
}

#[test]
fn minimum_errors() {
    let empty: NodeProperties = KeyedMap::new();
    assert_eq!(
        Minimum.propagate_property(&SUBSTITUTE, &no_arguments(), &empty).unwrap_err(),
        Error::MissingArgument(ArgumentName::Data)
    );
    let mut jagged: NodeProperties = KeyedMap::new();
    jagged.insert(
        "data".to_string(),
        ValueProperties::Jagged(whitenoise::properties::JaggedProperties { releasable: false }),
    );
    assert_eq!(
        Minimum.propagate_property(&SUBSTITUTE, &no_arguments(), &jagged).unwrap_err(),
        Error::InArgument(ArgumentName::Data, Box::new(Error::PropertiesMustBeArray))
    );
    assert_eq!(Minimum.get_names(&empty), Err(Error::GetNamesNotImplemented));
}

#[test]
fn minimum_sensitivity_bounds() {
    let props = node(data(Some(10)));
    let b = Minimum.sensitivity_bounds(&SUBSTITUTE, &props, &SensitivitySpace::KNorm(1)).unwrap();
    assert_eq!(b.formula, RowSensitivity::Range);
    assert_eq!(b.min, vec![(-1.0f64).to_bits(), 0.0f64.to_bits()]);
    assert_eq!(b.max, vec![3.0f64.to_bits(), 2.0f64.to_bits()]);
    assert_eq!(
        Minimum.sensitivity_bounds(&SUBSTITUTE, &props, &SensitivitySpace::KNorm(2)).unwrap_err(),
        Error::MinimumSensitivityKNorm
    );
    assert_eq!(
        Minimum.sensitivity_bounds(&SUBSTITUTE, &props, &SensitivitySpace::InfNorm).unwrap_err(),
        Error::MinimumSensitivityKNorm
    );
    let mut nullable = data(Some(10));
    nullable.nullity = true;
    assert_eq!(
        Minimum
            .sensitivity_bounds(&SUBSTITUTE, &node(nullable), &SensitivitySpace::KNorm(1))
            .unwrap_err(),
        Error::MayContainNullity
    );
}

#[test]
fn sum_forgets_the_nature() {
    let props = node(data(Some(10)));
    let r = Sum.propagate_property(&SUBSTITUTE, &no_arguments(), &props).unwrap();
    let p = r.array().unwrap();
    assert_eq!(p.num_records, Some(1));
    assert!(p.nature.is_none());
    assert_eq!(p.aggregator.as_ref().unwrap().component, Component::Sum(Sum));
    assert_eq!(p.dataset_id, Some(1));
}

#[test]
fn sum_sensitivity_formulas() {
    let props = node(data(Some(10)));
    let l1 = SensitivitySpace::KNorm(1);
    let l2 = SensitivitySpace::KNorm(2);
    assert_eq!(Sum.sensitivity_bounds(&SUBSTITUTE, &props, &l1).unwrap().formula, RowSensitivity::Range);
    assert_eq!(Sum.sensitivity_bounds(&ADD_REMOVE, &props, &l1).unwrap().formula, RowSensitivity::MaxAbs);
    assert_eq!(
        Sum.sensitivity_bounds(&SUBSTITUTE, &props, &l2).unwrap().formula,
        RowSensitivity::RangeSquared
    );
    assert_eq!(Sum.sensitivity_bounds(&ADD_REMOVE, &props, &l2).unwrap().formula, RowSensitivity::MaxSquare);
}

#[test]
fn sum_sensitivity_errors() {
    let props = node(data(Some(10)));
    assert_eq!(
        Sum.sensitivity_bounds(&SUBSTITUTE, &props, &SensitivitySpace::KNorm(3)).unwrap_err(),
        Error::KNormL1L2Only
    );
    assert_eq!(
        Sum.sensitivity_bounds(&SUBSTITUTE, &props, &SensitivitySpace::Exponential).unwrap_err(),
        Error::SumSensitivityKNorm
    );
    let odd = PrivacyDefinition { neighboring: 7 };
    assert_eq!(
        Sum.sensitivity_bounds(&odd, &props, &SensitivitySpace::KNorm(1)).unwrap_err(),
        Error::NeighboringUndefined
    );
    let aggregated = Sum.propagate_property(&SUBSTITUTE, &no_arguments(), &props).unwrap();
    let mut again: NodeProperties = KeyedMap::new();
    again.insert("data".to_string(), aggregated);
    assert_eq!(
        Sum.sensitivity_bounds(&SUBSTITUTE, &again, &SensitivitySpace::KNorm(1)).unwrap_err(),
        Error::AggregatedData
    );
}

#[test]
fn neighboring_numbers() {
    assert_eq!(Neighboring::from_i32(0), Some(Neighboring::Substitute));
    assert_eq!(Neighboring::from_i32(1), Some(Neighboring::AddRemove));
    assert_eq!(Neighboring::from_i32(2), None);
}

fn partition_counts(r: &ValueProperties) -> Vec<(i64, Option<i64>)> {
    match &r.hashmap().unwrap().properties {
        Hashmap::I64(m) => m
            .as_vec()
            .iter()
            .map(|(k, v)| (*k, v.array().unwrap().num_records))
            .collect(),
        _ => panic!("partitions must be keyed by integers"),
    }
}

#[test]
fn partition_into_counted_parts() {
    let props = node(data(Some(10)));
    let mut args: PublicArguments = KeyedMap::new();
    args.insert("num_partitions".to_string(), scalar(3));
    let r = Partition.propagate_property(&SUBSTITUTE, &args, &props).unwrap();
    let h = r.hashmap().unwrap();
    assert_eq!(h.num_records, Some(10));
    assert!(!h.disjoint);
    assert!(!h.columnar);
    // every index below the remainder gets one more record
    assert_eq!(partition_counts(&r), vec![(0, Some(4)), (1, Some(3)), (2, Some(3))]);
    let total: i64 = partition_counts(&r).iter().map(|c| c.1.unwrap()).sum();
    assert_eq!(total, 10);
}

#[test]
fn partition_sizes_are_balanced() {
    let props = node(data(Some(5)));
    let mut args: PublicArguments = KeyedMap::new();
    args.insert("num_partitions".to_string(), scalar(3));
    let r = Partition.propagate_property(&SUBSTITUTE, &args, &props).unwrap();
    let counts: Vec<i64> = partition_counts(&r).iter().map(|c| c.1.unwrap()).collect();
    assert_eq!(counts, vec![2, 2, 1]);
    let max = *counts.iter().max().unwrap();
    let min = *counts.iter().min().unwrap();
    assert!(max - min <= 1);
    assert_eq!(counts.iter().sum::<i64>(), 5);
}

#[test]
fn partition_sizes_add_up_to_the_records() {
    for n in 0..40i64 {
        for k in 1..9i64 {
            let props = node(data(Some(n)));
            let mut args: PublicArguments = KeyedMap::new();
            args.insert("num_partitions".to_string(), scalar(k));
            let r = Partition.propagate_property(&SUBSTITUTE, &args, &props).unwrap();
            let counts: Vec<i64> = partition_counts(&r).iter().map(|c| c.1.unwrap()).collect();
            assert_eq!(counts.len() as i64, k);
            assert_eq!(counts.iter().sum::<i64>(), n, "{} records in {} partitions", n, k);
            assert!(counts.iter().max().unwrap() - counts.iter().min().unwrap() <= 1);
        }
    }
}

#[test]
fn partition_of_the_largest_count_into_one() {
    let props = node(data(Some(i64::MAX)));
    let mut args: PublicArguments = KeyedMap::new();
    args.insert("num_partitions".to_string(), scalar(1));
    let r = Partition.propagate_property(&SUBSTITUTE, &args, &props).unwrap();
    assert_eq!(partition_counts(&r), vec![(0, Some(i64::MAX))]);
}

#[test]
fn partition_of_unknown_count() {
    let props = node(data(None));
    let mut args: PublicArguments = KeyedMap::new();
    args.insert("num_partitions".to_string(), scalar(2));
    let r = Partition.propagate_property(&SUBSTITUTE, &args, &props).unwrap();
    assert_eq!(partition_counts(&r), vec![(0, None), (1, None)]);
    let mut none: PublicArguments = KeyedMap::new();
    none.insert("num_partitions".to_string(), scalar(0));
    let e = Partition.propagate_property(&SUBSTITUTE, &none, &props).unwrap();
    assert_eq!(partition_counts(&e), vec![]);
}

#[test]
fn partition_argument_errors() {
    let props = node(data(Some(4)));
    assert_eq!(
        Partition.propagate_property(&SUBSTITUTE, &no_arguments(), &props).unwrap_err(),
        Error::NumPartitionsOrByRequired
    );
    let mut args: PublicArguments = KeyedMap::new();
    args.insert("num_partitions".to_string(), Value::Jagged(Jagged::I64(vec![])));
    assert_eq!(
        Partition.propagate_property(&SUBSTITUTE, &args, &props).unwrap_err(),
        Error::ValueMustBeArray
    );
    let empty: NodeProperties = KeyedMap::new();
    assert_eq!(
        Partition.propagate_property(&SUBSTITUTE, &args, &empty).unwrap_err(),
        Error::MissingArgument(ArgumentName::Data)
    );
}

fn by(categories: Jagged, columns: Option<i64>) -> ArrayProperties {
    ArrayProperties {
        num_records: Some(10),
        num_columns: columns,
        nullity: false,
        releasable: false,
        c_stability: vec![],
        aggregator: None,
        nature: Some(Nature::Categorical(NatureCategorical { categories })),
        data_type: DataType::Str,
        dataset_id: None,
    }
}

#[test]
fn partition_by_categories() {
    let mut props = node(data(Some(10)));
    let cats = Jagged::Str(vec![Some(vec!["a".to_string(), "b".to_string(), "a".to_string()])]);
    props.insert("by".to_string(), ValueProperties::Array(by(cats, Some(1))));
    let r = Partition.propagate_property(&SUBSTITUTE, &no_arguments(), &props).unwrap();
    let h = r.hashmap().unwrap();
    assert!(h.disjoint);
    assert_eq!(h.num_records, None);
    match &h.properties {
        Hashmap::Str(m) => {
            let keys: Vec<String> = m.as_vec().iter().map(|(k, _)| k.clone()).collect();
            assert_eq!(keys, vec!["a".to_string(), "b".to_string()]);
            for (_, v) in m.as_vec() {
                let p = v.array().unwrap();
                assert_eq!(p.num_records, None);
                assert_eq!(p.dataset_id, Some(1));
            }
        },
        _ => panic!("partitions must be keyed by strings"),
    }
}

#[test]
fn partition_by_errors() {
    let base = node(data(Some(10)));
    let cases: Vec<(ArrayProperties, Error)> = vec![
        (by(Jagged::I64(vec![Some(vec![1])]), None), Error::ByNumColumnsUnknown),
        (by(Jagged::I64(vec![Some(vec![1])]), Some(2)), Error::ByMustBeSingleColumn),
        (by(Jagged::F64(vec![Some(vec![1])]), Some(1)), Error::FloatPartitioning),
        (by(Jagged::Bool(vec![Some(vec![true]), None]), Some(1)), Error::CategoriesMustBeOneColumn),
        (by(Jagged::Bool(vec![None]), Some(1)), Error::PartitionCategoriesUndefined),
    ];
    for (b, e) in cases {
        let mut props = node(data(Some(10)));
        props.insert("by".to_string(), ValueProperties::Array(b));
        assert_eq!(Partition.propagate_property(&SUBSTITUTE, &no_arguments(), &props).unwrap_err(), e);
    }
    let mut continuous_by = by(Jagged::I64(vec![]), Some(1));
    continuous_by.nature = data(None).nature;
    let mut props = node(data(Some(10)));
    props.insert("by".to_string(), ValueProperties::Array(continuous_by));
    assert_eq!(
        Partition.propagate_property(&SUBSTITUTE, &no_arguments(), &props).unwrap_err(),
        Error::InArgument(ArgumentName::By, Box::new(Error::CategoriesNotDefined))
    );
    let mut jagged_by = node(data(Some(10)));
    jagged_by.insert(
        "by".to_string(),
        ValueProperties::Jagged(whitenoise::properties::JaggedProperties { releasable: true }),
    );
    assert_eq!(
        Partition.propagate_property(&SUBSTITUTE, &no_arguments(), &jagged_by).unwrap_err(),
        Error::InArgument(ArgumentName::By, Box::new(Error::PropertiesMustBeArray))
    );
    assert_eq!(base.len(), 1);
}

#[test]
fn broadcast_partitions_dedups_categories() {
    let m = broadcast_partitions(&vec![Some(vec![3i64, 1, 3, 2])], &data(None)).unwrap();
    let keys: Vec<i64> = m.as_vec().iter().map(|(k, _)| *k).collect();
    assert_eq!(keys, vec![3, 1, 2]);
}

#[test]
fn materialize_by_column_names() {
    let mut args: PublicArguments = KeyedMap::new();
    let names = NdArray::from_shape_vec(vec![2], vec!["age".to_string(), "income".to_string()]).unwrap();
    args.insert("column_names".to_string(), Value::Array(Array::Str(names)));
    let m = Materialize { private: true, dataset_id: Some(9) };
    let r = m.propagate_property(&SUBSTITUTE, &args, &KeyedMap::new()).unwrap();
    let h = r.hashmap().unwrap();
    assert!(h.columnar);
    assert!(!h.disjoint);
    match &h.properties {
        Hashmap::Str(c) => {
            assert_eq!(c.len(), 2);
            let p = c.get(&"income".to_string()).unwrap().array().unwrap();
            assert_eq!(p.num_columns, Some(1));
            assert!(p.nullity);
            assert!(!p.releasable);
            assert_eq!(p.c_stability, vec![1.0f64.to_bits()]);
            assert_eq!(p.data_type, DataType::Str);
            assert_eq!(p.dataset_id, Some(9));
        },
        _ => panic!("columns must be keyed by name"),
    }
}

#[test]
fn materialize_by_number_of_columns() {
    let mut args: PublicArguments = KeyedMap::new();
    args.insert("num_columns".to_string(), scalar(3));
    let m = Materialize { private: false, dataset_id: None };
    let r = m.propagate_property(&SUBSTITUTE, &args, &KeyedMap::new()).unwrap();
    match &r.hashmap().unwrap().properties {
        Hashmap::I64(c) => {
            let keys: Vec<i64> = c.as_vec().iter().map(|(k, _)| *k).collect();
            assert_eq!(keys, vec![0, 1, 2]);
            assert!(c.get(&0).unwrap().array().unwrap().releasable);
        },
        _ => panic!("columns must be keyed by number"),
    }
    assert_eq!(
        m.propagate_property(&SUBSTITUTE, &no_arguments(), &KeyedMap::new()).unwrap_err(),
        Error::ColumnNamesOrNumColumnsRequired
    );
    assert_eq!(m.get_names(&KeyedMap::new()), Err(Error::GetNamesNotImplemented));
}

#[test]
fn snapshot_holds_the_arguments() {
    let props = node(data(Some(3)));
    let r = Sum.propagate_property(&SUBSTITUTE, &no_arguments(), &props).unwrap();
    let g: &AggregatorProperties = r.array().unwrap().aggregator.as_ref().unwrap();
    assert_eq!(format!("{:?}", g.properties), format!("{:?}", props));
}
