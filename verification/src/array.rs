use vstd::prelude::*;
use crate::bits::{ONE_BITS, ZERO_BITS, denotes_integer, i32_to_f64_bits, lemma_one_and_zero_bits};
use crate::error::Error;
use crate::nd::{NdArray, shape_size};
use crate::scalar::seq_view;

verus! {

/// The universal n-dimensional array representation: a homogeneously typed
/// array of zero, one or two dimensions; the first axis counts the records,
/// the second the columns.
///
/// Floating-point arrays hold the IEEE-754 bit patterns of their elements.
#[derive(Debug)]
pub enum Array {
    Bool(NdArray<bool>),
    I64(NdArray<i64>),
    F64(NdArray<u64>),
    Str(NdArray<String>),
}

/// Two arrays of the same type, shape and elements.
pub open spec fn array_eqv(a: Array, b: Array) -> bool {
    match (a, b) {
        (Array::Bool(x), Array::Bool(y)) => x.spec_shape() == y.spec_shape() && seq_view(
            x.spec_data(),
        ) == seq_view(y.spec_data()),
        (Array::I64(x), Array::I64(y)) => x.spec_shape() == y.spec_shape() && seq_view(
            x.spec_data(),
        ) == seq_view(y.spec_data()),
        (Array::F64(x), Array::F64(y)) => x.spec_shape() == y.spec_shape() && seq_view(
            x.spec_data(),
        ) == seq_view(y.spec_data()),
        (Array::Str(x), Array::Str(y)) => x.spec_shape() == y.spec_shape() && seq_view(
            x.spec_data(),
        ) == seq_view(y.spec_data()),
        _ => false,
    }
}

impl Clone for Array {
    fn clone(&self) -> (r: Self)
        ensures
            array_eqv(r, *self),
    {
        match self {
            Array::Bool(x) => Array::Bool(x.clone()),
            Array::I64(x) => Array::I64(x.clone()),
            Array::F64(x) => Array::F64(x.clone()),
            Array::Str(x) => Array::Str(x.clone()),
        }
    }
}

/// The axis lengths of the array, each as an `i64`.
pub open spec fn shape_as_i64(s: Seq<usize>) -> Seq<i64> {
    s.map_values(|d: usize| d as i64)
}

/// `length` copies of `x`; none where `length` is not positive.
pub open spec fn repeated<T>(x: T, length: i64) -> Seq<T> {
    Seq::new(if length > 0 { length as nat } else { 0 }, |i: int| x)
}

fn repeat<T: Copy>(x: T, length: i64) -> (r: Vec<T>)
    ensures
        r@ == repeated(x, length),
{
    let mut r: Vec<T> = Vec::new();
    let mut i: i64 = 0;
    while i < length
        invariant
            0 <= i,
            length > 0 ==> i <= length,
            length <= 0 ==> i == 0,
            r@.len() == i,
            forall|j: int| 0 <= j < i ==> r@[j] == x,
        decreases length - i,
    {
        r.push(x);
        i = i + 1;
    }
    assert(r@ =~= repeated(x, length));
    r
}

impl Array {
    /// The axis lengths.
    pub open spec fn spec_shape(self) -> Seq<usize> {
        match self {
            Array::Bool(x) => x.spec_shape(),
            Array::I64(x) => x.spec_shape(),
            Array::F64(x) => x.spec_shape(),
            Array::Str(x) => x.spec_shape(),
        }
    }

    /// The floating-point array.
    pub fn f64_bits(&self) -> (r: Result<&NdArray<u64>, Error>)
        ensures
            match *self {
                Array::F64(x) => r == Ok::<&NdArray<u64>, Error>(&x),
                _ => r == Err::<&NdArray<u64>, Error>(Error::ExpectedFloatArray),
            },
    {
        match self {
            Array::F64(x) => Ok(x),
            _ => Err(Error::ExpectedFloatArray),
        }
    }

    /// What `first_f64` gives back for the array.
    pub open spec fn first_f64_result(self, r: Result<u64, Error>) -> bool {
        match self {
            Array::Bool(x) => if x.spec_data().len() != 1 {
                r == Err::<u64, Error>(Error::NonSingletonArray)
            } else {
                r == Ok::<u64, Error>(
                    if x.spec_data()[0] {
                        ONE_BITS
                    } else {
                        ZERO_BITS
                    },
                )
            },
            Array::I64(x) => if x.spec_data().len() != 1 {
                r == Err::<u64, Error>(Error::NonSingletonArray)
            } else {
                r matches Ok(b) && denotes_integer(b, (x.spec_data()[0] as i32) as int)
            },
            Array::F64(x) => if x.spec_data().len() != 1 {
                r == Err::<u64, Error>(Error::NonSingletonArray)
            } else {
                r == Ok::<u64, Error>(x.spec_data()[0])
            },
            Array::Str(_) => r == Err::<u64, Error>(Error::ValueMustBeNumeric),
        }
    }

    /// The single element of a numeric array as the bit pattern of a double:
    /// a boolean is `1.0` or `0.0`, an integer is first truncated to `i32`.
    pub fn first_f64(&self) -> (r: Result<u64, Error>)
        ensures
            self.first_f64_result(r),
    {
        match self {
            Array::Bool(x) => {
                if x.len() != 1 {
                    return Err(Error::NonSingletonArray);
                }
                Ok(
                    if x.data()[0] {
                        ONE_BITS
                    } else {
                        ZERO_BITS
                    },
                )
            },
            Array::I64(x) => {
                if x.len() != 1 {
                    return Err(Error::NonSingletonArray);
                }
                Ok(i32_to_f64_bits(x.data()[0] as i32))
            },
            Array::F64(x) => {
                if x.len() != 1 {
                    return Err(Error::NonSingletonArray);
                }
                Ok(x.data()[0])
            },
            _ => Err(Error::ValueMustBeNumeric),
        }
    }

    /// The floating-point array as a vector: a zero-dimensional array is
    /// repeated `optional_length` times, a one-dimensional array gives its
    /// elements.
    pub fn vec_f64(&self, optional_length: Option<i64>) -> (r: Result<Vec<u64>, Error>)
        ensures
            match *self {
                Array::F64(x) => if x.spec_shape().len() == 0 {
                    match optional_length {
                        Some(length) => r matches Ok(v) && v@ == repeated(
                            x.spec_data()[0],
                            length,
                        ),
                        None => r == Err::<Vec<u64>, Error>(Error::CastF64ToVector),
                    }
                } else if x.spec_shape().len() == 1 {
                    r matches Ok(v) && v@ == x.spec_data()
                } else {
                    r == Err::<Vec<u64>, Error>(Error::CastF64ToVector)
                },
                _ => r == Err::<Vec<u64>, Error>(Error::ExpectedFloatArray),
            },
    {
        let data = self.f64_bits()?;
        data.well_formed();
        let ndim = data.ndim();
        if ndim == 0 {
            assert(shape_size(data.spec_shape()) == 1);
            match (optional_length, data.first()) {
                (Some(length), Some(v)) => Ok(repeat(*v, length)),
                _ => Err(Error::CastF64ToVector),
            }
        } else if ndim == 1 {
            Ok(data.data().clone())
        } else {
            Err(Error::CastF64ToVector)
        }
    }

    /// The integer array.
    pub fn i64(&self) -> (r: Result<&NdArray<i64>, Error>)
        ensures
            match *self {
                Array::I64(x) => r == Ok::<&NdArray<i64>, Error>(&x),
                _ => r == Err::<&NdArray<i64>, Error>(Error::ExpectedFloatArray),
            },
    {
        match self {
            Array::I64(x) => Ok(x),
            _ => Err(Error::ExpectedFloatArray),
        }
    }

    /// What `first_i64` gives back for the array.
    pub open spec fn spec_first_i64(self) -> Result<i64, Error> {
        match self {
            Array::Bool(x) => if x.spec_data().len() != 1 {
                Err(Error::NonSingletonArray)
            } else {
                Ok(
                    if x.spec_data()[0] {
                        1
                    } else {
                        0
                    },
                )
            },
            Array::I64(x) => if x.spec_data().len() != 1 {
                Err(Error::NonSingletonArray)
            } else {
                Ok(x.spec_data()[0])
            },
            _ => Err(Error::ValueMustBeNumeric),
        }
    }

    /// The single element of a boolean or integer array as an integer.
    pub fn first_i64(&self) -> (r: Result<i64, Error>)
        ensures
            r == self.spec_first_i64(),
    {
        match self {
            Array::Bool(x) => {
                if x.len() != 1 {
                    return Err(Error::NonSingletonArray);
                }
                Ok(
                    if x.data()[0] {
                        1
                    } else {
                        0
                    },
                )
            },
            Array::I64(x) => {
                if x.len() != 1 {
                    return Err(Error::NonSingletonArray);
                }
                Ok(x.data()[0])
            },
            _ => Err(Error::ValueMustBeNumeric),
        }
    }

    /// The integer array as a vector: a zero-dimensional array is repeated
    /// `optional_length` times, a one-dimensional array gives its elements.
    pub fn vec_i64(&self, optional_length: Option<i64>) -> (r: Result<Vec<i64>, Error>)
        ensures
            match *self {
                Array::I64(x) => if x.spec_shape().len() == 0 {
                    match optional_length {
                        Some(length) => r matches Ok(v) && v@ == repeated(
                            x.spec_data()[0],
                            length,
                        ),
                        None => r == Err::<Vec<i64>, Error>(Error::CastI64ToVector),
                    }
                } else if x.spec_shape().len() == 1 {
                    r matches Ok(v) && v@ == x.spec_data()
                } else {
                    r == Err::<Vec<i64>, Error>(Error::CastI64ToVector)
                },
                _ => r == Err::<Vec<i64>, Error>(Error::ExpectedFloatArray),
            },
    {
        let data = self.i64()?;
        data.well_formed();
        let ndim = data.ndim();
        if ndim == 0 {
            assert(shape_size(data.spec_shape()) == 1);
            match (optional_length, data.first()) {
                (Some(length), Some(v)) => Ok(repeat(*v, length)),
                _ => Err(Error::CastI64ToVector),
            }
        } else if ndim == 1 {
            Ok(data.data().clone())
        } else {
            Err(Error::CastI64ToVector)
        }
    }

    /// The string array.
    pub fn string(&self) -> (r: Result<&NdArray<String>, Error>)
        ensures
            match *self {
                Array::Str(x) => r == Ok::<&NdArray<String>, Error>(&x),
                _ => r == Err::<&NdArray<String>, Error>(Error::ValueMustBeString),
            },
    {
        match self {
            Array::Str(x) => Ok(x),
            _ => Err(Error::ValueMustBeString),
        }
    }

    /// What `first_string` gives back for the array.
    pub open spec fn spec_first_string(self) -> Result<String, Error> {
        match self {
            Array::Str(x) => if x.spec_data().len() != 1 {
                Err(Error::NonSingletonArray)
            } else {
                Ok(x.spec_data()[0])
            },
            _ => Err(Error::ValueMustBeString),
        }
    }

    /// The single element of a string array.
    pub fn first_string(&self) -> (r: Result<String, Error>)
        ensures
            r == self.spec_first_string(),
    {
        match self {
            Array::Str(x) => {
                if x.len() != 1 {
                    return Err(Error::NonSingletonArray);
                }
                Ok(x.data()[0].clone())
            },
            _ => Err(Error::ValueMustBeString),
        }
    }

    /// The boolean array.
    pub fn bool(&self) -> (r: Result<&NdArray<bool>, Error>)
        ensures
            match *self {
                Array::Bool(x) => r == Ok::<&NdArray<bool>, Error>(&x),
                _ => r == Err::<&NdArray<bool>, Error>(Error::ValueMustBeBool),
            },
    {
        match self {
            Array::Bool(x) => Ok(x),
            _ => Err(Error::ValueMustBeBool),
        }
    }

    /// What `first_bool` gives back for the array.
    pub open spec fn spec_first_bool(self) -> Result<bool, Error> {
        match self {
            Array::Bool(x) => if x.spec_data().len() != 1 {
                Err(Error::NonSingletonArray)
            } else {
                Ok(x.spec_data()[0])
            },
            _ => Err(Error::ValueMustBeBool),
        }
    }

    /// The single element of a boolean array.
    pub fn first_bool(&self) -> (r: Result<bool, Error>)
        ensures
            r == self.spec_first_bool(),
    {
        match self {
            Array::Bool(x) => {
                if x.len() != 1 {
                    return Err(Error::NonSingletonArray);
                }
                Ok(x.data()[0])
            },
            _ => Err(Error::ValueMustBeBool),
        }
    }

    /// The axis lengths, each as an `i64`.
    pub fn shape(&self) -> (r: Vec<i64>)
        ensures
            r@ == shape_as_i64(self.spec_shape()),
    {
        let s = match self {
            Array::Bool(array) => array.shape(),
            Array::F64(array) => array.shape(),
            Array::I64(array) => array.shape(),
            Array::Str(array) => array.shape(),
        };
        let mut r: Vec<i64> = Vec::new();
        let n = s.len();
        let mut i: usize = 0;
        while i < n
            invariant
                n == s@.len(),
                s@ == self.spec_shape(),
                i <= n,
                r@.len() == i,
                forall|j: int| 0 <= j < i ==> r@[j] == s@[j] as i64,
            decreases n - i,
        {
            r.push(s[i] as i64);
            i = i + 1;
        }
        assert(r@ =~= shape_as_i64(self.spec_shape()));
        r
    }

    /// The number of records: one for a zero-dimensional array, else the
    /// length of the first axis.
    pub fn num_records(&self) -> (r: Result<i64, Error>)
        ensures
            self.spec_shape().len() == 0 ==> r == Ok::<i64, Error>(1),
            (self.spec_shape().len() == 1 || self.spec_shape().len() == 2) ==> r == Ok::<
                i64,
                Error,
            >(self.spec_shape()[0] as i64),
            self.spec_shape().len() > 2 ==> r == Err::<i64, Error>(Error::MaxDimensionality),
    {
        let shape = self.shape();
        match shape.len() {
            0 => Ok(1),
            1 | 2 => Ok(shape[0]),
            _ => Err(Error::MaxDimensionality),
        }
    }

    /// The number of columns: one for an array of fewer than two dimensions,
    /// else the length of the second axis.
    pub fn num_columns(&self) -> (r: Result<i64, Error>)
        ensures
            self.spec_shape().len() < 2 ==> r == Ok::<i64, Error>(1),
            self.spec_shape().len() == 2 ==> r == Ok::<i64, Error>(self.spec_shape()[1] as i64),
            self.spec_shape().len() > 2 ==> r == Err::<i64, Error>(Error::MaxDimensionality),
    {
        let shape = self.shape();
        match shape.len() {
            0 => Ok(1),
            1 => Ok(1),
            2 => Ok(shape[1]),
            _ => Err(Error::MaxDimensionality),
        }
    }
}

/// Reading the single element of a boolean or integer array as a double
/// gives the double of the integer read from it, where that integer fits
/// in an `i32`.
pub proof fn lemma_first_f64_agrees_with_first_i64(a: Array, r: Result<u64, Error>)
    requires
        a.first_f64_result(r),
        a.spec_first_i64() is Ok,
        i32::MIN <= a.spec_first_i64()->Ok_0 <= i32::MAX,
    ensures
        r matches Ok(b) && denotes_integer(b, a.spec_first_i64()->Ok_0 as int),
{
    lemma_one_and_zero_bits();
}

} // verus!
