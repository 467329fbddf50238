use vstd::prelude::*;
use crate::array::repeated;
use crate::error::Error;
use crate::jagged::{all_defined, columns_view, defined_columns_view, known_columns};
use crate::scalar::{Scalar, copy_vec, seq_view};
use crate::keyed::{KeyedMap, has_key, value_at};
use crate::value::Value;

verus! {

/// What `standardize_categorical_argument` gives back, by view: an error
/// where a column is unknown or there is none; one column repeated `length`
/// times where there is exactly one; else the columns themselves.
pub open spec fn standardized_categories<T: View>(
    categories: Seq<Option<Vec<T>>>,
    length: i64,
) -> Result<Seq<Seq<T::V>>, Error> {
    if !all_defined(categories) {
        Err(Error::CategoriesNotDefinedForAllColumns)
    } else if categories.len() == 0 {
        Err(Error::NoCategoriesDefined)
    } else if categories.len() == 1 {
        Ok(repeated(seq_view(categories[0]->0@), length))
    } else {
        Ok(defined_columns_view(categories))
    }
}

/// Checks that the categories of every column are known and that there
/// is at least one column; a single set of categories is broadcast to
/// `length` columns.
pub fn standardize_categorical_argument<T: Scalar>(
    categories: &Vec<Option<Vec<T>>>,
    length: &i64,
) -> (r: Result<Vec<Vec<T>>, Error>)
    ensures
        match standardized_categories(categories@, *length) {
            Ok(s) => r matches Ok(v) && columns_view(v@) == s,
            Err(e) => r == Err::<Vec<Vec<T>>, Error>(e),
        },
{
    let columns = match known_columns(categories) {
        Some(c) => c,
        None => {
            return Err(Error::CategoriesNotDefinedForAllColumns);
        },
    };
    assert(columns_view(columns@).len() == columns@.len());
    assert(defined_columns_view(categories@).len() == categories@.len());
    if columns.len() == 0 {
        return Err(Error::NoCategoriesDefined);
    }
    if columns.len() == 1 {
        let ghost first = columns_view(columns@)[0];
        assert(first == defined_columns_view(categories@)[0]);
        let mut r: Vec<Vec<T>> = Vec::new();
        let mut i: i64 = 0;
        while i < *length
            invariant
                0 <= i,
                *length > 0 ==> i <= *length,
                *length <= 0 ==> i == 0,
                columns@.len() == 1,
                first == seq_view(columns@[0]@),
                r@.len() == i,
                forall|j: int| 0 <= j < i ==> #[trigger] seq_view(r@[j]@) == first,
            decreases *length - i,
        {
            r.push(copy_vec(&columns[0]));
            i = i + 1;
        }
        assert(columns_view(r@) =~= repeated(first, *length));
        return Ok(r);
    }
    Ok(columns)
}

/// The argument named `name`; an error where there is none.
pub fn get_argument<'a>(arguments: &'a KeyedMap<String, Value>, name: &str) -> (r: Result<
    &'a Value,
    Error,
>)
    ensures
        has_key(arguments.entries(), name@) ==> (r matches Ok(v) && *v == value_at(
            arguments.entries(),
            name@,
        )),
        !has_key(arguments.entries(), name@) ==> (r matches Err(Error::ArgumentNotDefined(s))
            && s@ == name@),
{
    let key = name.to_string();
    match arguments.get(&key) {
        Some(argument) => Ok(argument),
        None => Err(Error::ArgumentNotDefined(key)),
    }
}

} // verus!
