use crate::shape::{
    first_slice_elems, inner, lemma_concat_at, lemma_concat_len, lemma_product_le_nonzero,
    lemma_unit_axis_valid, lemma_unit_slice_len, lemma_update_keeps_outer_inner, outer, position,
    product, same_except, valid_shape,
};
use crate::tensor::{
    concat_check, concat_model, duplicate_check, duplicate_model, enlarge_check, enlarge_model,
    from_data_check, from_data_model, unit_slice_shape, well_formed, zeros_model, TensorError,
    TensorModel,
};
use vstd::arithmetic::div_mod::lemma_fundamental_div_mod_converse;
use vstd::prelude::*;

verus! {

/// A zero tensor has the shape it was asked for, every element zero, and no
/// device buffer.
pub proof fn zeros_shape_and_elements(shape: Seq<usize>)
    requires
        valid_shape(shape),
    ensures
        well_formed(zeros_model(shape)),
        zeros_model(shape).shape == shape,
        forall|i: int| 0 <= i < zeros_model(shape).elems.len() ==> zeros_model(shape).elems[i] == 0,
{
}

/// Building from flat data fails with `ShapeMismatch` exactly when the data's
/// length is not the shape's element count; otherwise the flat elements read
/// back are the data.
pub proof fn from_data_round_trip(shape: Seq<usize>, v: Seq<u32>)
    requires
        valid_shape(shape),
    ensures
        from_data_check(shape, v.len()) == Err::<(), TensorError>(TensorError::ShapeMismatch) <==> v.len() != product(shape),
        from_data_check(shape, v.len()) is Ok <==> v.len() == product(shape),
        v.len() == product(shape) ==> well_formed(from_data_model(shape, v)),
        v.len() == product(shape) ==> from_data_model(shape, v).elems == v,
{
}

/// Joining along axis `a` sums that axis's lengths and keeps the others; it
/// fails with `DimensionMismatch` where the shapes differ on another axis. The
/// first operand's elements keep the low indices along `a`, the second's follow.
pub proof fn concatenate_shape(m: TensorModel, s2: Seq<usize>, e2: Seq<u32>, a: int)
    requires
        well_formed(m),
        valid_shape(s2),
        e2.len() == product(s2),
    ensures
        !same_except(m.shape, s2, a) ==> concat_check(m.shape, s2, a) == Err::<(), TensorError>(TensorError::DimensionMismatch),
        concat_check(m.shape, s2, a) is Ok ==> well_formed(concat_model(m, s2, e2, a)),
        concat_check(m.shape, s2, a) is Ok ==> concat_model(m, s2, e2, a).shape.len() == m.shape.len(),
        concat_check(m.shape, s2, a) is Ok ==> concat_model(m, s2, e2, a).shape[a] == m.shape[a] + s2[a],
        concat_check(m.shape, s2, a) is Ok ==> forall|i: int| 0 <= i < m.shape.len() && i != a
            ==> concat_model(m, s2, e2, a).shape[i] == m.shape[i],
        concat_check(m.shape, s2, a) is Ok ==> forall|o: int, k: int, j: int|
            0 <= o < outer(m.shape, a) && 0 <= k < m.shape[a] && 0 <= j < inner(m.shape, a)
            ==> concat_model(m, s2, e2, a).elems[#[trigger] position(concat_model(m, s2, e2, a).shape, a, o, k, j)]
                == m.elems[position(m.shape, a, o, k, j)],
        concat_check(m.shape, s2, a) is Ok ==> forall|o: int, k: int, j: int|
            0 <= o < outer(m.shape, a) && m.shape[a] <= k < m.shape[a] + s2[a] && 0 <= j < inner(m.shape, a)
            ==> concat_model(m, s2, e2, a).elems[#[trigger] position(concat_model(m, s2, e2, a).shape, a, o, k, j)]
                == e2[position(s2, a, o, k - m.shape[a], j)],
{
    if concat_check(m.shape, s2, a) is Ok {
        let r = concat_model(m, s2, e2, a);
        lemma_concat_len(m.elems, e2, m.shape, s2, a);
        assert forall|o: int, k: int, j: int|
            0 <= o < outer(m.shape, a) && 0 <= k < m.shape[a] + s2[a] && 0 <= j < inner(m.shape, a) implies {
            &&& k < m.shape[a] ==> r.elems[position(r.shape, a, o, k, j)] == m.elems[position(m.shape, a, o, k, j)]
            &&& k >= m.shape[a] ==> r.elems[position(r.shape, a, o, k, j)] == e2[position(s2, a, o, k - m.shape[a], j)]
        } by {
            lemma_concat_at(m.elems, e2, m.shape, s2, a, o, k, j);
        }
    }
}

/// Position in a single slice along `a` of (outer `o`, inner `j`).
proof fn lemma_unit_position(s: Seq<usize>, a: int, o: int, j: int)
    requires
        0 <= a < s.len(),
        0 <= o < outer(s, a),
        0 <= j < inner(s, a),
    ensures
        position(unit_slice_shape(s, a), a, o, 0, j) == o * inner(s, a) + j,
        0 <= o * inner(s, a) + j < product(unit_slice_shape(s, a)),
{
    lemma_unit_slice_len(s, a);
    lemma_update_keeps_outer_inner(s, a, 1);
    let n = inner(s, a) as int;
    assert(0 <= o * n + j < outer(s, a) * n) by (nonlinear_arith)
        requires
            0 <= o < outer(s, a),
            0 <= j < n,
    ;
}

/// Enlarging axis `a` adds exactly one index along it, whose slice is
/// uniformly the fill value; the elements that were there stay.
pub proof fn enlarge_appends_uniform_slice(m: TensorModel, a: int, value: u32)
    requires
        well_formed(m),
        enlarge_check(m.shape, a) is Ok,
    ensures
        well_formed(enlarge_model(m, a, value)),
        enlarge_model(m, a, value).shape == m.shape.update(a, (m.shape[a] + 1) as usize),
        forall|o: int, j: int| 0 <= o < outer(m.shape, a) && 0 <= j < inner(m.shape, a)
            ==> enlarge_model(m, a, value).elems[#[trigger] position(enlarge_model(m, a, value).shape, a, o, m.shape[a] as int, j)]
                == value,
        forall|o: int, k: int, j: int| 0 <= o < outer(m.shape, a) && 0 <= k < m.shape[a] && 0 <= j < inner(m.shape, a)
            ==> enlarge_model(m, a, value).elems[#[trigger] position(enlarge_model(m, a, value).shape, a, o, k, j)]
                == m.elems[position(m.shape, a, o, k, j)],
{
    let u = unit_slice_shape(m.shape, a);
    let fill = Seq::new(product(u), |i: int| value);
    lemma_unit_slice_len(m.shape, a);
    lemma_product_le_nonzero(u);
    lemma_unit_axis_valid(m.shape, a);
    concatenate_shape(m, u, fill, a);
    let r = enlarge_model(m, a, value);
    assert(r.shape =~= m.shape.update(a, (m.shape[a] + 1) as usize));
    assert forall|o: int, j: int| 0 <= o < outer(m.shape, a) && 0 <= j < inner(m.shape, a) implies
        r.elems[position(r.shape, a, o, m.shape[a] as int, j)] == value by {
        lemma_concat_at(m.elems, fill, m.shape, u, a, o, m.shape[a] as int, j);
        lemma_unit_position(m.shape, a, o, j);
    }
}

/// Duplicating the first slice along `a` adds exactly one index along it,
/// whose slice equals the slice at index 0 as it was; the elements that were
/// there stay.
pub proof fn duplicate_appends_first_slice(m: TensorModel, a: int)
    requires
        well_formed(m),
        duplicate_check(m.shape, a) is Ok,
    ensures
        well_formed(duplicate_model(m, a)),
        duplicate_model(m, a).shape == m.shape.update(a, (m.shape[a] + 1) as usize),
        forall|o: int, j: int| 0 <= o < outer(m.shape, a) && 0 <= j < inner(m.shape, a)
            ==> duplicate_model(m, a).elems[#[trigger] position(duplicate_model(m, a).shape, a, o, m.shape[a] as int, j)]
                == m.elems[position(m.shape, a, o, 0, j)],
        forall|o: int, k: int, j: int| 0 <= o < outer(m.shape, a) && 0 <= k < m.shape[a] && 0 <= j < inner(m.shape, a)
            ==> duplicate_model(m, a).elems[#[trigger] position(duplicate_model(m, a).shape, a, o, k, j)]
                == m.elems[position(m.shape, a, o, k, j)],
{
    let u = unit_slice_shape(m.shape, a);
    let first = first_slice_elems(m.elems, m.shape, a);
    lemma_unit_slice_len(m.shape, a);
    lemma_product_le_nonzero(u);
    lemma_unit_axis_valid(m.shape, a);
    concatenate_shape(m, u, first, a);
    let r = duplicate_model(m, a);
    assert(r.shape =~= m.shape.update(a, (m.shape[a] + 1) as usize));
    assert forall|o: int, j: int| 0 <= o < outer(m.shape, a) && 0 <= j < inner(m.shape, a) implies
        r.elems[position(r.shape, a, o, m.shape[a] as int, j)] == m.elems[position(m.shape, a, o, 0, j)] by {
        lemma_concat_at(m.elems, first, m.shape, u, a, o, m.shape[a] as int, j);
        lemma_unit_position(m.shape, a, o, j);
        let n = inner(m.shape, a) as int;
        lemma_fundamental_div_mod_converse(o * n + j, n, o, j);
    }
}

/// A new tensor holds no device buffer, and every shape change drops the one
/// it held, so the buffer must be uploaded again before it can be had.
pub proof fn shape_changes_drop_buffer(
    shape: Seq<usize>,
    v: Seq<u32>,
    m: TensorModel,
    s2: Seq<usize>,
    e2: Seq<u32>,
    a: int,
    value: u32,
)
    ensures
        zeros_model(shape).device is None,
        from_data_model(shape, v).device is None,
        concat_model(m, s2, e2, a).device is None,
        enlarge_model(m, a, value).device is None,
        duplicate_model(m, a).device is None,
{
}

} // verus!
