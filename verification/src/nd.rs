use vstd::prelude::*;
use crate::error::Error;
use crate::scalar::{Scalar, copy_vec, seq_view};

verus! {

/// The number of elements of an array of the given shape: the product of its axis lengths.
pub open spec fn shape_size(s: Seq<usize>) -> nat
    decreases s.len(),
{
    if s.len() == 0 {
        1
    } else {
        shape_size(s.drop_last()) * (s.last() as nat)
    }
}

/// The product of the axis lengths that are not zero.
pub open spec fn nonzero_size(s: Seq<usize>) -> nat
    decreases s.len(),
{
    if s.len() == 0 {
        1
    } else if s.last() == 0 {
        nonzero_size(s.drop_last())
    } else {
        nonzero_size(s.drop_last()) * (s.last() as nat)
    }
}

/// A shape that an array can have: the product of its non-zero axis lengths fits in `isize`.
pub open spec fn valid_shape(s: Seq<usize>) -> bool {
    nonzero_size(s) <= isize::MAX
}

proof fn lemma_nonzero_size_positive(s: Seq<usize>)
    ensures
        nonzero_size(s) >= 1,
    decreases s.len(),
{
    if s.len() > 0 {
        lemma_nonzero_size_positive(s.drop_last());
        let a = nonzero_size(s.drop_last());
        let b = s.last() as nat;
        if b != 0 {
            assert(a * b >= 1) by (nonlinear_arith)
                requires
                    a >= 1,
                    b >= 1,
            ;
        }
    }
}

proof fn lemma_nonzero_size_monotone(s: Seq<usize>, i: int)
    requires
        0 <= i <= s.len(),
    ensures
        nonzero_size(s.take(i)) <= nonzero_size(s),
    decreases s.len() - i,
{
    if i < s.len() {
        lemma_nonzero_size_monotone(s, i + 1);
        let t = s.take(i + 1);
        assert(t.drop_last() =~= s.take(i));
        lemma_nonzero_size_positive(s.take(i));
        let a = nonzero_size(s.take(i));
        let b = t.last() as nat;
        if b != 0 {
            assert(a <= a * b) by (nonlinear_arith)
                requires
                    a >= 1,
                    b >= 1,
            ;
        }
    } else {
        assert(s.take(i) =~= s);
    }
}

/// An n-dimensional array: a shape and the elements in row-major order.
#[derive(Debug)]
pub struct NdArray<T> {
    shape: Vec<usize>,
    data: Vec<T>,
}

impl<T> NdArray<T> {
    #[verifier::type_invariant]
    spec fn inv(self) -> bool {
        &&& self.data@.len() == shape_size(self.shape@)
        &&& valid_shape(self.shape@)
    }

    /// The axis lengths.
    pub closed spec fn spec_shape(self) -> Seq<usize> {
        self.shape@
    }

    /// The elements, in row-major order.
    pub closed spec fn spec_data(self) -> Seq<T> {
        self.data@
    }

    /// An array of the given shape over the given elements; fails where the
    /// product of the non-zero axis lengths exceeds `isize::MAX`, or where the
    /// number of elements is not the product of the axis lengths.
    pub fn from_shape_vec(shape: Vec<usize>, data: Vec<T>) -> (r: Result<Self, Error>)
        ensures
            r is Ok <==> (valid_shape(shape@) && shape_size(shape@) == data@.len()),
            r matches Ok(a) ==> a.spec_shape() == shape@ && a.spec_data() == data@,
            r matches Err(e) ==> e == Error::ShapeMismatch,
    {
        let n = shape.len();
        let mut nz: usize = 1;
        let mut has_zero = false;
        let mut i: usize = 0;
        assert(shape@.take(0) =~= Seq::<usize>::empty());
        while i < n
            invariant
                n == shape@.len(),
                i <= n,
                nz as nat == nonzero_size(shape@.take(i as int)),
                nz <= isize::MAX,
                shape_size(shape@.take(i as int)) == if has_zero {
                    0
                } else {
                    nz as nat
                },
            decreases n - i,
        {
            let d = shape[i];
            let ghost t = shape@.take(i + 1);
            assert(t.drop_last() =~= shape@.take(i as int));
            assert(t.last() == d);
            if d == 0 {
                has_zero = true;
            } else {
                match nz.checked_mul(d) {
                    Some(p) => {
                        if p > isize::MAX as usize {
                            proof {
                                lemma_nonzero_size_monotone(shape@, i + 1);
                            }
                            return Err(Error::ShapeMismatch);
                        }
                        proof {
                            if has_zero {
                                assert(0 * (d as nat) == 0);
                            }
                        }
                        nz = p;
                    },
                    None => {
                        proof {
                            lemma_nonzero_size_monotone(shape@, i + 1);
                        }
                        return Err(Error::ShapeMismatch);
                    },
                }
            }
            i = i + 1;
        }
        assert(shape@.take(n as int) =~= shape@);
        let size = if has_zero {
            0
        } else {
            nz
        };
        if size != data.len() {
            Err(Error::ShapeMismatch)
        } else {
            Ok(NdArray { shape, data })
        }
    }

    /// The number of elements.
    pub fn len(&self) -> (n: usize)
        ensures
            n == self.spec_data().len(),
            n == shape_size(self.spec_shape()),
    {
        proof {
            use_type_invariant(self);
        }
        self.data.len()
    }

    /// The number of axes.
    pub fn ndim(&self) -> (n: usize)
        ensures
            n == self.spec_shape().len(),
    {
        self.shape.len()
    }

    /// The axis lengths.
    pub fn shape(&self) -> (r: &Vec<usize>)
        ensures
            r@ == self.spec_shape(),
    {
        &self.shape
    }

    /// The elements, in row-major order.
    pub fn data(&self) -> (r: &Vec<T>)
        ensures
            r@ == self.spec_data(),
    {
        &self.data
    }

    /// The first element in row-major order, if there is one.
    pub fn first(&self) -> (r: Option<&T>)
        ensures
            r is Some <==> self.spec_data().len() > 0,
            r matches Some(x) ==> *x == self.spec_data()[0],
    {
        if self.data.len() == 0 {
            None
        } else {
            Some(&self.data[0])
        }
    }

    /// The array's elements and axis lengths agree, and its shape is valid.
    pub fn well_formed(&self)
        ensures
            self.spec_data().len() == shape_size(self.spec_shape()),
            valid_shape(self.spec_shape()),
    {
        proof {
            use_type_invariant(self);
        }
    }
}

impl<T: Scalar> Clone for NdArray<T> {
    fn clone(&self) -> (r: Self)
        ensures
            r.spec_shape() == self.spec_shape(),
            seq_view(r.spec_data()) == seq_view(self.spec_data()),
    {
        proof {
            use_type_invariant(self);
        }
        let shape = self.shape.clone();
        let data = copy_vec(&self.data);
        assert(shape@ =~= self.shape@);
        assert(data@.len() == seq_view(data@).len());
        assert(self.data@.len() == seq_view(self.data@).len());
        NdArray { shape, data }
    }
}

} // verus!
