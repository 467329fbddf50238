use vstd::prelude::*;
use crate::array::Array;
use crate::component::Count;
use crate::error::Error;
use crate::keyed::{has_key, value_at};
use crate::nd::NdArray;
use crate::utilities::get_argument;
use crate::value::Value;
use super::PublicArguments;

verus! {

/// The number of rows of the data: a zero-dimensional integer array that
/// holds the length of the first axis.
pub fn count<T>(data: &NdArray<T>) -> (r: Result<NdArray<i64>, Error>)
    requires
        data.spec_shape().len() >= 1,
    ensures
        r matches Ok(a) && a.spec_shape() == Seq::<usize>::empty() && a.spec_data() == seq![
            data.spec_shape()[0] as i64,
        ],
{
    let rows = data.shape()[0] as i64;
    let mut values: Vec<i64> = Vec::new();
    values.push(rows);
    let r = NdArray::from_shape_vec(Vec::new(), values);
    assert(crate::nd::shape_size(Seq::<usize>::empty()) == 1);
    assert(crate::nd::nonzero_size(Seq::<usize>::empty()) == 1);
    r
}

/// The data argument has at least one axis where it is an array.
pub open spec fn data_has_rows(arguments: PublicArguments) -> bool {
    has_key(arguments.entries(), "data"@) ==> match value_at(arguments.entries(), "data"@) {
        Value::Array(a) => a.spec_shape().len() >= 1,
        _ => true,
    }
}

impl Count {
    /// The number of rows of the `data` argument, as an integer value.
    pub fn evaluate(&self, arguments: &PublicArguments) -> (r: Result<Value, Error>)
        requires
            data_has_rows(*arguments),
        ensures
            !has_key(arguments.entries(), "data"@) ==> (r matches Err(
                Error::ArgumentNotDefined(s),
            ) && s@ == "data"@),
            has_key(arguments.entries(), "data"@) ==> match value_at(
                arguments.entries(),
                "data"@,
            ) {
                Value::Array(a) => r matches Ok(Value::Array(Array::I64(c))) && c.spec_shape()
                    == Seq::<usize>::empty() && c.spec_data() == seq![a.spec_shape()[0] as i64],
                _ => r == Err::<Value, Error>(Error::ValueMustBeArray),
            },
    {
        let result = match get_argument(arguments, "data")?.array()? {
            Array::Bool(data) => count(data)?,
            Array::F64(data) => count(data)?,
            Array::I64(data) => count(data)?,
            Array::Str(data) => count(data)?,
        };
        Ok(Value::Array(Array::I64(result)))
    }
}

} // verus!
