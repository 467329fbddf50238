use vstd::prelude::*;
use crate::error::Error;
use crate::scalar::{Scalar, seq_view};

verus! {

/// The columns of a jagged matrix by view; an unknown column stays `None`.
pub open spec fn optional_columns_view<T: View>(c: Seq<Option<Vec<T>>>) -> Seq<Option<Seq<T::V>>> {
    c.map_values(
        |o: Option<Vec<T>>|
            match o {
                Some(v) => Some(seq_view(v@)),
                None => None,
            },
    )
}

/// The columns of a matrix by view.
pub open spec fn columns_view<T: View>(c: Seq<Vec<T>>) -> Seq<Seq<T::V>> {
    c.map_values(|v: Vec<T>| seq_view(v@))
}

/// Every column is known.
pub open spec fn all_defined<T>(c: Seq<Option<T>>) -> bool {
    forall|i: int| 0 <= i < c.len() ==> (#[trigger] c[i]) is Some
}

/// The known columns of a matrix, where every column is known.
pub open spec fn defined_columns_view<T: View>(c: Seq<Option<Vec<T>>>) -> Seq<Seq<T::V>> {
    c.map_values(|o: Option<Vec<T>>| seq_view(o->0@))
}

/// A copy of the columns of a jagged matrix.
pub fn copy_columns<T: Scalar>(c: &Vec<Option<Vec<T>>>) -> (r: Vec<Option<Vec<T>>>)
    ensures
        optional_columns_view(r@) == optional_columns_view(c@),
{
    let mut r: Vec<Option<Vec<T>>> = Vec::new();
    let n = c.len();
    let mut i: usize = 0;
    while i < n
        invariant
            n == c@.len(),
            i <= n,
            r@.len() == i,
            forall|j: int|
                0 <= j < i ==> optional_columns_view(r@)[j] == optional_columns_view(c@)[j],
        decreases n - i,
    {
        let col = match &c[i] {
            Some(v) => Some(crate::scalar::copy_vec(v)),
            None => None,
        };
        r.push(col);
        i = i + 1;
    }
    assert(optional_columns_view(r@) =~= optional_columns_view(c@));
    r
}

/// The columns of a jagged matrix, where all of them are known.
pub fn known_columns<T: Scalar>(c: &Vec<Option<Vec<T>>>) -> (r: Option<Vec<Vec<T>>>)
    ensures
        r is Some <==> all_defined(c@),
        r matches Some(v) ==> columns_view(v@) == defined_columns_view(c@),
{
    let mut r: Vec<Vec<T>> = Vec::new();
    let n = c.len();
    let mut i: usize = 0;
    while i < n
        invariant
            n == c@.len(),
            i <= n,
            r@.len() == i,
            all_defined(c@.take(i as int)),
            forall|j: int| 0 <= j < i ==> columns_view(r@)[j] == defined_columns_view(c@)[j],
        decreases n - i,
    {
        match &c[i] {
            Some(v) => {
                r.push(crate::scalar::copy_vec(v));
            },
            None => {
                assert(!(c@[i as int] is Some));
                return None;
            },
        }
        assert forall|j: int| 0 <= j < i + 1 implies (#[trigger] c@.take(i + 1)[j]) is Some by {
            if j < i {
                assert(c@.take(i + 1)[j] == c@.take(i as int)[j]);
            }
        }
        i = i + 1;
    }
    assert(c@.take(n as int) =~= c@);
    assert(columns_view(r@) =~= defined_columns_view(c@));
    Some(r)
}

/// The universal jagged array representation: columns of possibly different
/// lengths, each of which may be unknown.
///
/// Floating-point columns hold the IEEE-754 bit patterns of their values.
#[derive(Debug)]
pub enum Jagged {
    Bool(Vec<Option<Vec<bool>>>),
    I64(Vec<Option<Vec<i64>>>),
    F64(Vec<Option<Vec<u64>>>),
    Str(Vec<Option<Vec<String>>>),
}

/// Two jagged matrices of the same type with the same columns.
pub open spec fn jagged_eqv(a: Jagged, b: Jagged) -> bool {
    match (a, b) {
        (Jagged::Bool(x), Jagged::Bool(y)) => optional_columns_view(x@) == optional_columns_view(y@),
        (Jagged::I64(x), Jagged::I64(y)) => optional_columns_view(x@) == optional_columns_view(y@),
        (Jagged::F64(x), Jagged::F64(y)) => optional_columns_view(x@) == optional_columns_view(y@),
        (Jagged::Str(x), Jagged::Str(y)) => optional_columns_view(x@) == optional_columns_view(y@),
        _ => false,
    }
}

/// The number of columns of a jagged matrix.
pub open spec fn jagged_num_columns(j: Jagged) -> nat {
    match j {
        Jagged::Bool(x) => x@.len(),
        Jagged::I64(x) => x@.len(),
        Jagged::F64(x) => x@.len(),
        Jagged::Str(x) => x@.len(),
    }
}

/// The length of each column, where known.
pub open spec fn column_lengths<T>(c: Seq<Option<Vec<T>>>) -> Seq<Option<i64>> {
    c.map_values(
        |o: Option<Vec<T>>|
            match o {
                Some(v) => Some(v@.len() as i64),
                None => None,
            },
    )
}

/// The length of each column of a jagged matrix, where known.
pub open spec fn jagged_lengths(j: Jagged) -> Seq<Option<i64>> {
    match j {
        Jagged::Bool(x) => column_lengths(x@),
        Jagged::I64(x) => column_lengths(x@),
        Jagged::F64(x) => column_lengths(x@),
        Jagged::Str(x) => column_lengths(x@),
    }
}

fn lengths_of<T>(c: &Vec<Option<Vec<T>>>) -> (r: Vec<Option<i64>>)
    ensures
        r@ == column_lengths(c@),
{
    let mut r: Vec<Option<i64>> = Vec::new();
    let n = c.len();
    let mut i: usize = 0;
    while i < n
        invariant
            n == c@.len(),
            i <= n,
            r@.len() == i,
            forall|j: int| 0 <= j < i ==> r@[j] == column_lengths(c@)[j],
        decreases n - i,
    {
        let l = match &c[i] {
            Some(v) => Some(v.len() as i64),
            None => None,
        };
        r.push(l);
        i = i + 1;
    }
    assert(r@ =~= column_lengths(c@));
    r
}

impl Clone for Jagged {
    fn clone(&self) -> (r: Self)
        ensures
            jagged_eqv(r, *self),
    {
        match self {
            Jagged::Bool(x) => Jagged::Bool(copy_columns(x)),
            Jagged::I64(x) => Jagged::I64(copy_columns(x)),
            Jagged::F64(x) => Jagged::F64(copy_columns(x)),
            Jagged::Str(x) => Jagged::Str(copy_columns(x)),
        }
    }
}

impl Jagged {
    /// The floating-point matrix, where every column is known.
    pub fn f64_bits(&self) -> (r: Result<Vec<Vec<u64>>, Error>)
        ensures
            match *self {
                Jagged::F64(x) => if all_defined(x@) {
                    r matches Ok(v) && columns_view(v@) == defined_columns_view(x@)
                } else {
                    r == Err::<Vec<Vec<u64>>, Error>(Error::JaggedFloatColumnsUnknown)
                },
                _ => r == Err::<Vec<Vec<u64>>, Error>(Error::JaggedExpectedFloat),
            },
    {
        let data = self.f64_option()?;
        match known_columns(data) {
            Some(v) => Ok(v),
            None => Err(Error::JaggedFloatColumnsUnknown),
        }
    }

    /// The floating-point matrix, with its unknown columns.
    pub fn f64_option(&self) -> (r: Result<&Vec<Option<Vec<u64>>>, Error>)
        ensures
            match *self {
                Jagged::F64(x) => r == Ok::<&Vec<Option<Vec<u64>>>, Error>(&x),
                _ => r == Err::<&Vec<Option<Vec<u64>>>, Error>(Error::JaggedExpectedFloat),
            },
    {
        match self {
            Jagged::F64(data) => Ok(data),
            _ => Err(Error::JaggedExpectedFloat),
        }
    }

    /// The integer matrix, where every column is known.
    pub fn i64(&self) -> (r: Result<Vec<Vec<i64>>, Error>)
        ensures
            match *self {
                Jagged::I64(x) => if all_defined(x@) {
                    r matches Ok(v) && columns_view(v@) == defined_columns_view(x@)
                } else {
                    r == Err::<Vec<Vec<i64>>, Error>(Error::JaggedIntColumnsUnknown)
                },
                _ => r == Err::<Vec<Vec<i64>>, Error>(Error::JaggedExpectedInt),
            },
    {
        match self {
            Jagged::I64(data) => match known_columns(data) {
                Some(v) => Ok(v),
                None => Err(Error::JaggedIntColumnsUnknown),
            },
            _ => Err(Error::JaggedExpectedInt),
        }
    }

    /// The string matrix, where every column is known.
    pub fn string(&self) -> (r: Result<Vec<Vec<String>>, Error>)
        ensures
            match *self {
                Jagged::Str(x) => if all_defined(x@) {
                    r matches Ok(v) && columns_view(v@) == defined_columns_view(x@)
                } else {
                    r == Err::<Vec<Vec<String>>, Error>(Error::JaggedStringColumnsUnknown)
                },
                _ => r == Err::<Vec<Vec<String>>, Error>(Error::JaggedExpectedString),
            },
    {
        match self {
            Jagged::Str(data) => match known_columns(data) {
                Some(v) => Ok(v),
                None => Err(Error::JaggedStringColumnsUnknown),
            },
            _ => Err(Error::JaggedExpectedString),
        }
    }

    /// The boolean matrix, where every column is known.
    pub fn bool(&self) -> (r: Result<Vec<Vec<bool>>, Error>)
        ensures
            match *self {
                Jagged::Bool(x) => if all_defined(x@) {
                    r matches Ok(v) && columns_view(v@) == defined_columns_view(x@)
                } else {
                    r == Err::<Vec<Vec<bool>>, Error>(Error::JaggedBoolColumnsUnknown)
                },
                _ => r == Err::<Vec<Vec<bool>>, Error>(Error::JaggedExpectedBool),
            },
    {
        match self {
            Jagged::Bool(data) => match known_columns(data) {
                Some(v) => Ok(v),
                None => Err(Error::JaggedBoolColumnsUnknown),
            },
            _ => Err(Error::JaggedExpectedBool),
        }
    }

    /// The number of columns.
    pub fn num_columns(&self) -> (r: i64)
        ensures
            r == jagged_num_columns(*self) as i64,
    {
        match self {
            Jagged::Bool(vector) => vector.len() as i64,
            Jagged::F64(vector) => vector.len() as i64,
            Jagged::I64(vector) => vector.len() as i64,
            Jagged::Str(vector) => vector.len() as i64,
        }
    }

    /// The length of each column, where known.
    pub fn lengths_option(&self) -> (r: Vec<Option<i64>>)
        ensures
            r@ == jagged_lengths(*self),
    {
        match self {
            Jagged::Bool(value) => lengths_of(value),
            Jagged::F64(value) => lengths_of(value),
            Jagged::I64(value) => lengths_of(value),
            Jagged::Str(value) => lengths_of(value),
        }
    }

    /// The length of each column, where all of them are known.
    pub fn lengths(&self) -> (r: Result<Vec<i64>, Error>)
        ensures
            all_defined(jagged_lengths(*self)) ==> (r matches Ok(v) && v@ == jagged_lengths(
                *self,
            ).map_values(|o: Option<i64>| o->0)),
            !all_defined(jagged_lengths(*self)) ==> r == Err::<Vec<i64>, Error>(
                Error::LengthNotDefinedForEveryColumn,
            ),
    {
        let lengths = self.lengths_option();
        let n = lengths.len();
        let mut r: Vec<i64> = Vec::new();
        let mut i: usize = 0;
        while i < n
            invariant
                n == lengths@.len(),
                lengths@ == jagged_lengths(*self),
                i <= n,
                r@.len() == i,
                forall|j: int| 0 <= j < i ==> (#[trigger] lengths@[j]) is Some,
                forall|j: int| 0 <= j < i ==> r@[j] == lengths@[j]->0,
            decreases n - i,
        {
            match lengths[i] {
                Some(l) => r.push(l),
                None => {
                    return Err(Error::LengthNotDefinedForEveryColumn);
                },
            }
            i = i + 1;
        }
        assert(r@ =~= jagged_lengths(*self).map_values(|o: Option<i64>| o->0));
        Ok(r)
    }
}

/// A vector whose elements may be unknown.
///
/// Floating-point elements are held as their IEEE-754 bit patterns.
#[derive(Debug)]
pub enum Vector1DNull {
    Bool(Vec<Option<bool>>),
    I64(Vec<Option<i64>>),
    F64(Vec<Option<u64>>),
    Str(Vec<Option<String>>),
}

/// The elements of a vector whose elements may be unknown, by view.
pub open spec fn optional_view<T: View>(s: Seq<Option<T>>) -> Seq<Option<T::V>> {
    s.map_values(
        |o: Option<T>|
            match o {
                Some(x) => Some(x@),
                None => None,
            },
    )
}

/// Two vectors of the same type with the same elements.
pub open spec fn vector_eqv(a: Vector1DNull, b: Vector1DNull) -> bool {
    match (a, b) {
        (Vector1DNull::Bool(x), Vector1DNull::Bool(y)) => optional_view(x@) == optional_view(y@),
        (Vector1DNull::I64(x), Vector1DNull::I64(y)) => optional_view(x@) == optional_view(y@),
        (Vector1DNull::F64(x), Vector1DNull::F64(y)) => optional_view(x@) == optional_view(y@),
        (Vector1DNull::Str(x), Vector1DNull::Str(y)) => optional_view(x@) == optional_view(y@),
        _ => false,
    }
}

/// A copy of a vector whose elements may be unknown.
pub fn copy_optional<T: Scalar>(v: &Vec<Option<T>>) -> (r: Vec<Option<T>>)
    ensures
        optional_view(r@) == optional_view(v@),
{
    let mut r: Vec<Option<T>> = Vec::new();
    let n = v.len();
    let mut i: usize = 0;
    while i < n
        invariant
            n == v@.len(),
            i <= n,
            r@.len() == i,
            forall|j: int| 0 <= j < i ==> optional_view(r@)[j] == optional_view(v@)[j],
        decreases n - i,
    {
        let x = match &v[i] {
            Some(x) => Some(x.copied()),
            None => None,
        };
        r.push(x);
        i = i + 1;
    }
    assert(optional_view(r@) =~= optional_view(v@));
    r
}

impl Clone for Vector1DNull {
    fn clone(&self) -> (r: Self)
        ensures
            vector_eqv(r, *self),
    {
        match self {
            Vector1DNull::Bool(x) => Vector1DNull::Bool(copy_optional(x)),
            Vector1DNull::I64(x) => Vector1DNull::I64(copy_optional(x)),
            Vector1DNull::F64(x) => Vector1DNull::F64(copy_optional(x)),
            Vector1DNull::Str(x) => Vector1DNull::Str(copy_optional(x)),
        }
    }
}

impl Vector1DNull {
    /// The floating-point elements.
    pub fn f64_bits(&self) -> (r: Result<&Vec<Option<u64>>, Error>)
        ensures
            match *self {
                Vector1DNull::F64(x) => r == Ok::<&Vec<Option<u64>>, Error>(&x),
                _ => r == Err::<&Vec<Option<u64>>, Error>(Error::VectorExpectedFloat),
            },
    {
        match self {
            Vector1DNull::F64(x) => Ok(x),
            _ => Err(Error::VectorExpectedFloat),
        }
    }

    /// The integer elements.
    pub fn i64(&self) -> (r: Result<&Vec<Option<i64>>, Error>)
        ensures
            match *self {
                Vector1DNull::I64(x) => r == Ok::<&Vec<Option<i64>>, Error>(&x),
                _ => r == Err::<&Vec<Option<i64>>, Error>(Error::VectorExpectedInteger),
            },
    {
        match self {
            Vector1DNull::I64(x) => Ok(x),
            _ => Err(Error::VectorExpectedInteger),
        }
    }
}

/// A vector of known elements.
///
/// Floating-point elements are held as their IEEE-754 bit patterns.
#[derive(Debug)]
pub enum Vector1D {
    Bool(Vec<bool>),
    I64(Vec<i64>),
    F64(Vec<u64>),
    Str(Vec<String>),
}

} // verus!
