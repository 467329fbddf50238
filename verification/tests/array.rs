use whitenoise::array::Array;
use whitenoise::bits::i32_to_f64_bits;
use whitenoise::error::Error;
use whitenoise::nd::NdArray;

fn ints(shape: Vec<usize>, data: Vec<i64>) -> Array {
    Array::I64(NdArray::from_shape_vec(shape, data).unwrap())
}

fn floats(shape: Vec<usize>, data: Vec<f64>) -> Array {
    Array::F64(NdArray::from_shape_vec(shape, data.iter().map(|x| x.to_bits()).collect()).unwrap())
}

#[test]
fn integer_bits_are_the_bits_of_the_double() {
    for v in [0i32, 1, -1, 3, -2, 7, 1024, 123456789, i32::MAX, i32::MIN] {
        assert_eq!(i32_to_f64_bits(v), (v as f64).to_bits(), "{}", v);
    }
}

#[test]
fn first_f64_of_bool_is_one_or_zero() {
    let t = Array::Bool(NdArray::from_shape_vec(vec![], vec![true]).unwrap());
    let f = Array::Bool(NdArray::from_shape_vec(vec![1], vec![false]).unwrap());
    assert_eq!(t.first_f64(), Ok(1.0f64.to_bits()));
    assert_eq!(f.first_f64(), Ok(0.0f64.to_bits()));
}

#[test]
fn first_f64_of_integer_truncates_to_i32() {
    assert_eq!(ints(vec![], vec![3]).first_f64(), Ok(3.0f64.to_bits()));
    assert_eq!(ints(vec![1], vec![-2]).first_f64(), Ok((-2.0f64).to_bits()));
    assert_eq!(ints(vec![], vec![(1i64 << 32) + 5]).first_f64(), Ok(5.0f64.to_bits()));
}

#[test]
fn first_f64_agrees_with_first_i64() {
    let a = ints(vec![1, 1], vec![-77]);
    let i = a.first_i64().unwrap();
    assert_eq!(a.first_f64(), Ok((i as f64).to_bits()));
}

#[test]
fn first_f64_errors() {
    assert_eq!(ints(vec![2], vec![1, 2]).first_f64(), Err(Error::NonSingletonArray));
    let s = Array::Str(NdArray::from_shape_vec(vec![], vec!["a".to_string()]).unwrap());
    assert_eq!(s.first_f64(), Err(Error::ValueMustBeNumeric));
    assert_eq!(floats(vec![], vec![2.5]).first_f64(), Ok(2.5f64.to_bits()));
    assert_eq!(floats(vec![0], vec![]).first_f64(), Err(Error::NonSingletonArray));
}

#[test]
fn first_i64_of_each_type() {
    let t = Array::Bool(NdArray::from_shape_vec(vec![], vec![true]).unwrap());
    assert_eq!(t.first_i64(), Ok(1));
    assert_eq!(ints(vec![], vec![42]).first_i64(), Ok(42));
    assert_eq!(floats(vec![], vec![1.0]).first_i64(), Err(Error::ValueMustBeNumeric));
    assert_eq!(ints(vec![3], vec![1, 2, 3]).first_i64(), Err(Error::NonSingletonArray));
}

#[test]
fn first_string_and_first_bool() {
    let s = Array::Str(NdArray::from_shape_vec(vec![1], vec!["x".to_string()]).unwrap());
    assert_eq!(s.first_string(), Ok("x".to_string()));
    assert_eq!(s.first_bool(), Err(Error::ValueMustBeBool));
    let b = Array::Bool(NdArray::from_shape_vec(vec![], vec![false]).unwrap());
    assert_eq!(b.first_bool(), Ok(false));
    assert_eq!(b.first_string(), Err(Error::ValueMustBeString));
}

#[test]
fn vec_f64_repeats_a_scalar() {
    let a = floats(vec![], vec![1.5]);
    assert_eq!(a.vec_f64(Some(3)), Ok(vec![1.5f64.to_bits(); 3]));
    assert_eq!(a.vec_f64(Some(-1)), Ok(vec![]));
    assert_eq!(a.vec_f64(None), Err(Error::CastF64ToVector));
}

#[test]
fn vec_f64_of_vector_and_matrix() {
    let v = floats(vec![2], vec![1.0, 2.0]);
    assert_eq!(v.vec_f64(None), Ok(vec![1.0f64.to_bits(), 2.0f64.to_bits()]));
    let m = floats(vec![1, 2], vec![1.0, 2.0]);
    assert_eq!(m.vec_f64(Some(2)), Err(Error::CastF64ToVector));
    assert_eq!(ints(vec![1], vec![1]).vec_f64(None), Err(Error::ExpectedFloatArray));
}

#[test]
fn vec_i64_cases() {
    assert_eq!(ints(vec![], vec![7]).vec_i64(Some(2)), Ok(vec![7, 7]));
    assert_eq!(ints(vec![3], vec![1, 2, 3]).vec_i64(None), Ok(vec![1, 2, 3]));
    assert_eq!(ints(vec![], vec![7]).vec_i64(None), Err(Error::CastI64ToVector));
    assert_eq!(ints(vec![1, 1, 1], vec![7]).vec_i64(None), Err(Error::CastI64ToVector));
    assert_eq!(floats(vec![1], vec![1.0]).vec_i64(None), Err(Error::ExpectedFloatArray));
}

#[test]
fn shape_records_and_columns() {
    let scalar = ints(vec![], vec![1]);
    assert_eq!(scalar.shape(), Vec::<i64>::new());
    assert_eq!(scalar.num_records(), Ok(1));
    assert_eq!(scalar.num_columns(), Ok(1));
    let vector = ints(vec![4], vec![1, 2, 3, 4]);
    assert_eq!(vector.num_records(), Ok(4));
    assert_eq!(vector.num_columns(), Ok(1));
    let matrix = ints(vec![2, 3], vec![0; 6]);
    assert_eq!(matrix.shape(), vec![2, 3]);
    assert_eq!(matrix.num_records(), Ok(2));
    assert_eq!(matrix.num_columns(), Ok(3));
    let cube = ints(vec![1, 1, 1], vec![0]);
    assert_eq!(cube.num_records(), Err(Error::MaxDimensionality));
    assert_eq!(cube.num_columns(), Err(Error::MaxDimensionality));
}

#[test]
fn typed_accessors() {
    let a = ints(vec![1], vec![1]);
    assert!(a.i64().is_ok());
    assert_eq!(a.f64_bits().unwrap_err(), Error::ExpectedFloatArray);
    assert_eq!(a.string().unwrap_err(), Error::ValueMustBeString);
    assert_eq!(a.bool().unwrap_err(), Error::ValueMustBeBool);
    assert_eq!(floats(vec![1], vec![1.0]).i64().unwrap_err(), Error::ExpectedFloatArray);
}
