use whitenoise::error::Error;
use whitenoise::jagged::{Jagged, Vector1DNull};

#[test]
fn known_columns_are_returned() {
    let j = Jagged::I64(vec![Some(vec![1, 2]), Some(vec![3])]);
    assert_eq!(j.i64(), Ok(vec![vec![1, 2], vec![3]]));
    assert_eq!(j.num_columns(), 2);
    assert_eq!(j.lengths_option(), vec![Some(2), Some(1)]);
    assert_eq!(j.lengths(), Ok(vec![2, 1]));
}

#[test]
fn unknown_columns_are_errors() {
    let j = Jagged::Str(vec![Some(vec!["a".to_string()]), None]);
    assert_eq!(j.string(), Err(Error::JaggedStringColumnsUnknown));
    assert_eq!(j.lengths_option(), vec![Some(1), None]);
    assert_eq!(j.lengths(), Err(Error::LengthNotDefinedForEveryColumn));
    let b = Jagged::Bool(vec![None]);
    assert_eq!(b.bool(), Err(Error::JaggedBoolColumnsUnknown));
    let i = Jagged::I64(vec![None]);
    assert_eq!(i.i64(), Err(Error::JaggedIntColumnsUnknown));
    let f = Jagged::F64(vec![None]);
    assert_eq!(f.f64_bits(), Err(Error::JaggedFloatColumnsUnknown));
}

#[test]
fn wrong_type_is_an_error() {
    let j = Jagged::Bool(vec![Some(vec![true])]);
    assert_eq!(j.f64_bits(), Err(Error::JaggedExpectedFloat));
    assert_eq!(j.f64_option().unwrap_err(), Error::JaggedExpectedFloat);
    assert_eq!(j.i64(), Err(Error::JaggedExpectedInt));
    assert_eq!(j.string(), Err(Error::JaggedExpectedString));
    assert_eq!(Jagged::I64(vec![]).bool(), Err(Error::JaggedExpectedBool));
}

#[test]
fn float_columns() {
    let j = Jagged::F64(vec![Some(vec![0.5f64.to_bits()])]);
    assert_eq!(j.f64_bits(), Ok(vec![vec![0.5f64.to_bits()]]));
    assert_eq!(j.f64_option().unwrap(), &vec![Some(vec![0.5f64.to_bits()])]);
}

#[test]
fn vector_accessors() {
    let v = Vector1DNull::F64(vec![Some(1), None]);
    assert_eq!(v.f64_bits().unwrap(), &vec![Some(1), None]);
    assert_eq!(v.i64().unwrap_err(), Error::VectorExpectedInteger);
    let w = Vector1DNull::I64(vec![Some(3)]);
    assert_eq!(w.i64().unwrap(), &vec![Some(3)]);
    assert_eq!(w.f64_bits().unwrap_err(), Error::VectorExpectedFloat);
}
