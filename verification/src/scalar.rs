use vstd::prelude::*;

verus! {

/// A plain value that can be a map key or an array element: values are
/// compared and copied by their view.
pub trait Scalar: Sized + View {
    /// Whether the two values are the same.
    fn same(&self, other: &Self) -> (r: bool)
        ensures
            r == (self@ == other@),
    ;

    /// A copy of the value.
    fn copied(&self) -> (r: Self)
        ensures
            r@ == self@,
    ;
}

impl Scalar for bool {
    fn same(&self, other: &Self) -> (r: bool) {
        *self == *other
    }

    fn copied(&self) -> (r: Self) {
        *self
    }
}

impl Scalar for i64 {
    fn same(&self, other: &Self) -> (r: bool) {
        *self == *other
    }

    fn copied(&self) -> (r: Self) {
        *self
    }
}

impl Scalar for u32 {
    fn same(&self, other: &Self) -> (r: bool) {
        *self == *other
    }

    fn copied(&self) -> (r: Self) {
        *self
    }
}

impl Scalar for u64 {
    fn same(&self, other: &Self) -> (r: bool) {
        *self == *other
    }

    fn copied(&self) -> (r: Self) {
        *self
    }
}

impl Scalar for String {
    fn same(&self, other: &Self) -> (r: bool) {
        self.eq(other)
    }

    fn copied(&self) -> (r: Self) {
        self.clone()
    }
}

/// The views of the elements of a sequence.
pub open spec fn seq_view<T: View>(s: Seq<T>) -> Seq<T::V> {
    s.map_values(|x: T| x@)
}

/// A copy of a vector of plain values.
pub fn copy_vec<T: Scalar>(v: &Vec<T>) -> (r: Vec<T>)
    ensures
        seq_view(r@) == seq_view(v@),
{
    let mut r: Vec<T> = Vec::new();
    let n = v.len();
    let mut i: usize = 0;
    while i < n
        invariant
            n == v@.len(),
            i <= n,
            r@.len() == i,
            forall|j: int| 0 <= j < i ==> #[trigger] r@[j]@ == v@[j]@,
        decreases n - i,
    {
        r.push(v[i].copied());
        i = i + 1;
    }
    assert(seq_view(r@) =~= seq_view(v@));
    r
}

} // verus!
