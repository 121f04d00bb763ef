use crate::shape::{
    col_major_index, concat_elems, first_slice_elems, flat_index, index_in_bounds, joined_shape, nonzero_product,
    product, same_except,
};
use ndarray::ShapeBuilder;
use vstd::prelude::*;

verus! {

/// Dense row-major array of `u32` held by ndarray.
///
/// Verus cannot read ndarray's `ArrayBase` (its declaration needs ndarray's
/// `RawData` trait), so the array sits in a private field; `nd_shape` and
/// `nd_elems` name what it holds.
#[verifier::external_body]
pub struct NdArray {
    arr: ndarray::ArrayD<u32>,
}

#[verifier::external_type_specification]
#[verifier::external_body]
pub struct ExShapeError(ndarray::ShapeError);

/// Axis lengths of an array, first axis first.
pub uninterp spec fn nd_shape(a: NdArray) -> Seq<usize>;

/// Elements of an array in the order of ndarray's `iter` (logical row-major order).
pub uninterp spec fn nd_elems(a: NdArray) -> Seq<u32>;

/// Relies on ndarray's `ArrayBase::zeros`: an array of the given shape filled
/// with zero; it panics only where the non-zero lengths overflow `isize`.
#[verifier::external_body]
pub(crate) fn nd_zeros(shape: &[usize]) -> (r: NdArray)
    requires
        nonzero_product(shape@) <= isize::MAX,
    ensures
        nd_shape(r) == shape@,
        nd_elems(r) == Seq::new(product(shape@), |i: int| 0u32),
{
    NdArray { arr: ndarray::ArrayD::<u32>::zeros(ndarray::IxDyn(shape)) }
}

/// Relies on ndarray's `ArrayBase::from_elem`: an array of the given shape with
/// every element equal to `value`; it panics only where the non-zero lengths
/// overflow `isize`.
#[verifier::external_body]
pub(crate) fn nd_from_elem(shape: &[usize], value: u32) -> (r: NdArray)
    requires
        nonzero_product(shape@) <= isize::MAX,
    ensures
        nd_shape(r) == shape@,
        nd_elems(r) == Seq::new(product(shape@), |i: int| value),
{
    NdArray { arr: ndarray::ArrayD::<u32>::from_elem(ndarray::IxDyn(shape), value) }
}

/// A shape and a vector length that ndarray's `from_shape_vec` accepts.
pub open spec fn accepts_flat(shape: Seq<usize>, len: nat) -> bool {
    nonzero_product(shape) <= isize::MAX && product(shape) == len
}

/// Relies on ndarray's `ArrayBase::from_shape_vec` with the default (row-major)
/// layout: it fails where the non-zero lengths overflow `isize` or the vector's
/// length is not the element count, and otherwise keeps the vector's order.
#[verifier::external_body]
pub(crate) fn nd_from_shape_vec(shape: &[usize], v: Vec<u32>) -> (r: Result<NdArray, ndarray::ShapeError>)
    ensures
        r is Ok <==> accepts_flat(shape@, v@.len()),
        r matches Ok(a) ==> nd_shape(a) == shape@ && nd_elems(a) == v@,
{
    match ndarray::ArrayD::<u32>::from_shape_vec(ndarray::IxDyn(shape), v) {
        Ok(arr) => Ok(NdArray { arr }),
        Err(e) => Err(e),
    }
}

/// Shapes that ndarray's `concatenate` joins along `axis` without an error.
pub open spec fn concatenable(s1: Seq<usize>, s2: Seq<usize>, axis: int) -> bool {
    &&& 0 <= axis < s1.len()
    &&& same_except(s1, s2, axis)
    &&& nonzero_product(joined_shape(s1, s2, axis)) <= isize::MAX
}

/// Relies on ndarray's `ArrayBase::from_shape_vec` with the column-major
/// layout (`f()`): it fails as the row-major form does, and otherwise the
/// element at each multi-index is the vector's element at its column-major
/// position.
#[verifier::external_body]
pub(crate) fn nd_from_shape_vec_col_major(shape: &[usize], v: Vec<u32>) -> (r: Result<NdArray, ndarray::ShapeError>)
    ensures
        r is Ok <==> accepts_flat(shape@, v@.len()),
        r matches Ok(a) ==> nd_shape(a) == shape@ && nd_elems(a).len() == v@.len(),
        r matches Ok(a) ==> forall|idx: Seq<usize>| index_in_bounds(shape@, idx) ==> nd_elems(a)[flat_index(shape@, idx) as int] == v@[col_major_index(shape@, idx) as int],
{
    match ndarray::ArrayD::<u32>::from_shape_vec(ndarray::IxDyn(shape).f(), v) {
        Ok(arr) => Ok(NdArray { arr }),
        Err(e) => Err(e),
    }
}

/// Relies on ndarray's `concatenate` of two arrays: it fails where `axis` is out
/// of range, the shapes differ on another axis, or the joined shape overflows
/// `isize`; otherwise the result holds, for each outer index, the block of `a`
/// and then the block of `b`. Equal ranks and a representable summed length
/// keep it from panicking.
#[verifier::external_body]
pub(crate) fn nd_concatenate(a: &NdArray, b: &NdArray, axis: usize) -> (r: Result<NdArray, ndarray::ShapeError>)
    requires
        nd_shape(*a).len() == nd_shape(*b).len(),
        axis < nd_shape(*a).len() ==> nd_shape(*a)[axis as int] + nd_shape(*b)[axis as int] <= usize::MAX,
    ensures
        r is Ok <==> concatenable(nd_shape(*a), nd_shape(*b), axis as int),
        r matches Ok(c) ==> nd_shape(c) == joined_shape(nd_shape(*a), nd_shape(*b), axis as int),
        r matches Ok(c) ==> nd_elems(c) == concat_elems(nd_elems(*a), nd_elems(*b), nd_shape(*a), nd_shape(*b), axis as int),
{
    match ndarray::concatenate(ndarray::Axis(axis), &[a.arr.view(), b.arr.view()]) {
        Ok(arr) => Ok(NdArray { arr }),
        Err(e) => Err(e),
    }
}

/// Relies on ndarray's `slice_axis` with the range `0..1`, made owned: the slice
/// at index 0 along `axis`. It panics where `axis` is out of range or empty.
#[verifier::external_body]
pub(crate) fn nd_first_slice(a: &NdArray, axis: usize) -> (r: NdArray)
    requires
        axis < nd_shape(*a).len(),
        nd_shape(*a)[axis as int] >= 1,
    ensures
        nd_shape(r) == nd_shape(*a).update(axis as int, 1),
        nd_elems(r) == first_slice_elems(nd_elems(*a), nd_shape(*a), axis as int),
{
    NdArray { arr: a.arr.slice_axis(ndarray::Axis(axis), ndarray::Slice::from(0..1usize)).to_owned() }
}

/// Relies on ndarray's `iter`: every element, in logical row-major order.
#[verifier::external_body]
pub(crate) fn nd_to_vec(a: &NdArray) -> (r: Vec<u32>)
    ensures
        r@ == nd_elems(*a),
{
    a.arr.iter().cloned().collect()
}

/// Relies on ndarray's `shape`: the axis lengths.
#[verifier::external_body]
pub(crate) fn nd_shape_vec(a: &NdArray) -> (r: Vec<usize>)
    ensures
        r@ == nd_shape(*a),
{
    a.arr.shape().to_vec()
}

/// Relies on ndarray's `Clone`: a deep copy of shape and elements.
#[verifier::external_body]
pub(crate) fn nd_clone(a: &NdArray) -> (r: NdArray)
    ensures
        nd_shape(r) == nd_shape(*a),
        nd_elems(r) == nd_elems(*a),
{
    NdArray { arr: a.arr.clone() }
}

/// Relies on ndarray's `Index` with a multi-index: the element at that index;
/// it panics where the index is out of bounds.
#[verifier::external_body]
pub(crate) fn nd_get(a: &NdArray, idx: &[usize]) -> (r: u32)
    requires
        index_in_bounds(nd_shape(*a), idx@),
    ensures
        r == nd_elems(*a)[flat_index(nd_shape(*a), idx@) as int],
{
    a.arr[idx]
}

/// Relies on ndarray's `IndexMut` with a multi-index: only the element at that
/// index changes; it panics where the index is out of bounds.
#[verifier::external_body]
pub(crate) fn nd_set(a: &mut NdArray, idx: &[usize], value: u32)
    requires
        index_in_bounds(nd_shape(*old(a)), idx@),
    ensures
        nd_shape(*final(a)) == nd_shape(*old(a)),
        nd_elems(*final(a)) == nd_elems(*old(a)).update(flat_index(nd_shape(*old(a)), idx@) as int, value),
{
    a.arr[idx] = value;
}

} // verus!
