use whitenoise::array::Array;
use whitenoise::error::Error;
use whitenoise::hashmap::Hashmap;
use whitenoise::jagged::Jagged;
use whitenoise::keyed::KeyedMap;
use whitenoise::nd::NdArray;
use whitenoise::value::Value;

#[test]
fn value_accessors() {
    let a = Value::Array(Array::I64(NdArray::from_shape_vec(vec![], vec![4]).unwrap()));
    assert!(a.array().is_ok());
    assert_eq!(a.jagged().unwrap_err(), Error::ValueMustBeJagged);
    let j = Value::Jagged(Jagged::Bool(vec![]));
    assert!(j.jagged().is_ok());
    assert_eq!(j.array().unwrap_err(), Error::ValueMustBeArray);
}

#[test]
fn value_first_elements() {
    let a = Value::Array(Array::I64(NdArray::from_shape_vec(vec![], vec![4]).unwrap()));
    assert_eq!(a.first_i64(), Ok(4));
    assert_eq!(a.first_f64(), Ok(4.0f64.to_bits()));
    assert_eq!(a.first_bool(), Err(Error::ValueMustBeBool));
    assert_eq!(a.first_string(), Err(Error::ValueMustBeString));
}

#[test]
fn first_of_non_array_value() {
    let h: Value = Value::Hashmap(Hashmap::I64(KeyedMap::new()));
    assert_eq!(h.first_f64(), Err(Error::CannotRetrieveFirstFloat));
    assert_eq!(h.first_i64(), Err(Error::CannotRetrieveInteger));
    assert_eq!(h.first_string(), Err(Error::CannotRetrieveString));
    assert_eq!(h.first_bool(), Err(Error::CannotRetrieveBool));
}

#[test]
fn cloned_values_keep_their_contents() {
    let a = Value::Array(Array::I64(NdArray::from_shape_vec(vec![2, 2], vec![1, 2, 3, 4]).unwrap()));
    let b = a.clone();
    let arr = b.array().unwrap();
    assert_eq!(arr.shape(), vec![2, 2]);
    assert_eq!(arr.i64().unwrap().data(), &vec![1, 2, 3, 4]);

    let j = Value::Jagged(Jagged::I64(vec![Some(vec![5]), Some(vec![6, 7])]));
    let k = j.clone();
    assert_eq!(k.jagged().unwrap().i64().unwrap(), vec![vec![5], vec![6, 7]]);
    assert_eq!(k.jagged().unwrap().lengths().unwrap(), vec![1, 2]);
}
