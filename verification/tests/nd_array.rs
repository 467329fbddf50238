use whitenoise::error::Error;
use whitenoise::nd::NdArray;

#[test]
fn from_shape_vec_accepts_matching_shape() {
    let a = NdArray::from_shape_vec(vec![2, 3], vec![1, 2, 3, 4, 5, 6]).unwrap();
    assert_eq!(a.len(), 6);
    assert_eq!(a.ndim(), 2);
    assert_eq!(a.shape(), &vec![2, 3]);
    assert_eq!(a.first(), Some(&1));
    assert_eq!(a.data(), &vec![1, 2, 3, 4, 5, 6]);
}

#[test]
fn from_shape_vec_zero_dimensional_holds_one_element() {
    let a = NdArray::from_shape_vec(vec![], vec![true]).unwrap();
    assert_eq!(a.len(), 1);
    assert_eq!(a.ndim(), 0);
}

#[test]
fn from_shape_vec_rejects_mismatch() {
    let r = NdArray::from_shape_vec(vec![2, 2], vec![1, 2, 3]);
    assert_eq!(r.unwrap_err(), Error::ShapeMismatch);
}

#[test]
fn from_shape_vec_rejects_overflowing_shape() {
    let r = NdArray::<i64>::from_shape_vec(vec![usize::MAX, 2, 0], vec![]);
    assert_eq!(r.unwrap_err(), Error::ShapeMismatch);
}

#[test]
fn from_shape_vec_accepts_empty_axis() {
    let a = NdArray::<i64>::from_shape_vec(vec![3, 0], vec![]).unwrap();
    assert_eq!(a.len(), 0);
    assert_eq!(a.first(), None);
}
