use vstd::arithmetic::div_mod::lemma_fundamental_div_mod_converse;
use vstd::prelude::*;

verus! {

/// Number of bytes that one element of a tensor takes.
pub const ELEMENT_BYTES: usize = 4;

/// Number of elements of a dense array with the given axis lengths.
pub open spec fn product(s: Seq<usize>) -> nat
    decreases s.len(),
{
    if s.len() == 0 {
        1
    } else {
        product(s.drop_last()) * (s.last() as nat)
    }
}

/// Product of the axis lengths that are not zero: what must stay addressable
/// for the strides of a shape to be representable.
pub open spec fn nonzero_product(s: Seq<usize>) -> nat
    decreases s.len(),
{
    if s.len() == 0 {
        1
    } else if s.last() == 0 {
        nonzero_product(s.drop_last())
    } else {
        nonzero_product(s.drop_last()) * (s.last() as nat)
    }
}

/// Largest number of addressable elements for which the byte length still fits in `isize`.
pub open spec fn max_elements() -> nat {
    (isize::MAX as nat) / (ELEMENT_BYTES as nat)
}

/// A shape whose elements, and their bytes, are addressable.
pub open spec fn valid_shape(s: Seq<usize>) -> bool {
    nonzero_product(s) <= max_elements()
}

/// Product of the axis lengths before `a`.
pub open spec fn outer(s: Seq<usize>, a: int) -> nat {
    product(s.take(a))
}

/// Product of the axis lengths after `a`: the distance between neighbours along `a`.
pub open spec fn inner(s: Seq<usize>, a: int) -> nat {
    product(s.skip(a + 1))
}

/// Shapes that agree in rank and on every axis but `a`.
pub open spec fn same_except(s1: Seq<usize>, s2: Seq<usize>, a: int) -> bool {
    &&& s1.len() == s2.len()
    &&& forall|i: int| 0 <= i < s1.len() && i != a ==> s1[i] == s2[i]
}

/// Shape of two arrays joined along axis `a`.
pub open spec fn joined_shape(s1: Seq<usize>, s2: Seq<usize>, a: int) -> Seq<usize> {
    s1.update(a, (s1[a] + s2[a]) as usize)
}

/// Position in row-major order of the element at (outer index `o`, index `k`
/// along axis `a`, inner index `j`).
pub open spec fn position(s: Seq<usize>, a: int, o: int, k: int, j: int) -> int {
    o * (s[a] * inner(s, a)) + k * inner(s, a) + j
}

/// Row-major position of a multi-index.
pub open spec fn flat_index(s: Seq<usize>, idx: Seq<usize>) -> nat
    decreases idx.len(),
{
    if idx.len() == 0 || s.len() == 0 {
        0
    } else {
        flat_index(s.drop_last(), idx.drop_last()) * (s.last() as nat) + (idx.last() as nat)
    }
}

/// Column-major position of a multi-index: the first axis varies fastest.
pub open spec fn col_major_index(s: Seq<usize>, idx: Seq<usize>) -> nat
    decreases idx.len(),
{
    if idx.len() == 0 || s.len() == 0 {
        0
    } else {
        col_major_index(s.drop_last(), idx.drop_last()) + (idx.last() as nat) * product(s.drop_last())
    }
}

/// A multi-index that names an element of an array of shape `s`.
pub open spec fn index_in_bounds(s: Seq<usize>, idx: Seq<usize>) -> bool {
    &&& idx.len() == s.len()
    &&& forall|i: int| 0 <= i < s.len() ==> idx[i] < s[i]
}

/// Elements of two row-major arrays joined along axis `a`: for each outer index,
/// the block of the first array, then the block of the second.
pub open spec fn concat_elems(
    e1: Seq<u32>,
    e2: Seq<u32>,
    s1: Seq<usize>,
    s2: Seq<usize>,
    a: int,
) -> Seq<u32> {
    let b1: nat = (s1[a] as nat) * inner(s1, a);
    let b2: nat = (s2[a] as nat) * inner(s1, a);
    Seq::new(
        outer(s1, a) * (b1 + b2),
        |i: int|
            if i % ((b1 + b2) as int) < b1 {
                e1[(i / ((b1 + b2) as int)) * b1 + i % ((b1 + b2) as int)]
            } else {
                e2[(i / ((b1 + b2) as int)) * b2 + i % ((b1 + b2) as int) - b1]
            },
    )
}

/// Elements of the slice at index 0 along axis `a`, in row-major order.
pub open spec fn first_slice_elems(e: Seq<u32>, s: Seq<usize>, a: int) -> Seq<u32> {
    Seq::new(
        outer(s, a) * inner(s, a),
        |i: int| e[position(s, a, i / (inner(s, a) as int), 0, i % (inner(s, a) as int))],
    )
}

pub proof fn lemma_product_concat(x: Seq<usize>, y: Seq<usize>)
    ensures
        product(x + y) == product(x) * product(y),
    decreases y.len(),
{
    if y.len() == 0 {
        assert(x + y =~= x);
        assert(product(y) == 1);
    } else {
        let xy = x + y;
        assert(xy.drop_last() =~= x + y.drop_last());
        assert(xy.last() == y.last());
        lemma_product_concat(x, y.drop_last());
        let p = product(x);
        let q = product(y.drop_last());
        let l = y.last() as nat;
        assert(product(xy) == product(xy.drop_last()) * l);
        assert(product(y) == q * l);
        assert(p * q * l == p * (q * l)) by (nonlinear_arith);
    }
}

pub proof fn lemma_nonzero_product_concat(x: Seq<usize>, y: Seq<usize>)
    ensures
        nonzero_product(x + y) == nonzero_product(x) * nonzero_product(y),
    decreases y.len(),
{
    if y.len() == 0 {
        assert(x + y =~= x);
        assert(nonzero_product(y) == 1);
    } else {
        let xy = x + y;
        assert(xy.drop_last() =~= x + y.drop_last());
        assert(xy.last() == y.last());
        lemma_nonzero_product_concat(x, y.drop_last());
        let p = nonzero_product(x);
        let q = nonzero_product(y.drop_last());
        let l = y.last() as nat;
        if l == 0 {
            assert(nonzero_product(xy) == nonzero_product(xy.drop_last()));
            assert(nonzero_product(y) == q);
        } else {
            assert(nonzero_product(xy) == nonzero_product(xy.drop_last()) * l);
            assert(nonzero_product(y) == q * l);
            assert(p * q * l == p * (q * l)) by (nonlinear_arith);
        }
    }
}

pub proof fn lemma_nonzero_product_positive(s: Seq<usize>)
    ensures
        nonzero_product(s) >= 1,
    decreases s.len(),
{
    if s.len() > 0 {
        lemma_nonzero_product_positive(s.drop_last());
        let p = nonzero_product(s.drop_last());
        let l = s.last() as nat;
        if l != 0 {
            assert(p * l >= 1) by (nonlinear_arith)
                requires
                    p >= 1,
                    l >= 1,
            ;
        }
    }
}

/// The element count never exceeds the product of the non-zero lengths.
pub proof fn lemma_product_le_nonzero(s: Seq<usize>)
    ensures
        product(s) <= nonzero_product(s),
    decreases s.len(),
{
    if s.len() > 0 {
        lemma_product_le_nonzero(s.drop_last());
        let p = product(s.drop_last());
        let q = nonzero_product(s.drop_last());
        let l = s.last() as nat;
        if l != 0 {
            assert(p * l <= q * l) by (nonlinear_arith)
                requires
                    p <= q,
            ;
        } else {
            assert(p * l == 0) by (nonlinear_arith)
                requires
                    l == 0,
            ;
        }
    }
}

/// Splits an array's element count around axis `a`.
pub proof fn lemma_product_split(s: Seq<usize>, a: int)
    requires
        0 <= a < s.len(),
    ensures
        product(s) == outer(s, a) * (s[a] * inner(s, a)),
{
    let t = seq![s[a]];
    assert(s =~= s.take(a) + (t + s.skip(a + 1)));
    lemma_product_concat(s.take(a), t + s.skip(a + 1));
    lemma_product_concat(t, s.skip(a + 1));
    assert(t.drop_last() =~= Seq::<usize>::empty());
    assert(product(t.drop_last()) == 1);
    assert(product(t) == s[a] as nat);
}

/// Changing the length of axis `a` leaves the lengths around it, and so
/// `outer` and `inner`, as they are.
pub proof fn lemma_update_keeps_outer_inner(s: Seq<usize>, a: int, n: usize)
    requires
        0 <= a < s.len(),
    ensures
        outer(s.update(a, n), a) == outer(s, a),
        inner(s.update(a, n), a) == inner(s, a),
{
    assert(s.update(a, n).take(a) =~= s.take(a));
    assert(s.update(a, n).skip(a + 1) =~= s.skip(a + 1));
}

/// Shapes that agree but on axis `a` have the same `outer` and `inner` there.
pub proof fn lemma_same_except_outer_inner(s1: Seq<usize>, s2: Seq<usize>, a: int)
    requires
        0 <= a < s1.len(),
        same_except(s1, s2, a),
    ensures
        outer(s1, a) == outer(s2, a),
        inner(s1, a) == inner(s2, a),
{
    assert(s1.take(a) =~= s2.take(a));
    assert(s1.skip(a + 1) =~= s2.skip(a + 1));
}

/// Setting the length of an axis to one keeps a valid shape valid.
pub proof fn lemma_unit_axis_valid(s: Seq<usize>, a: int)
    requires
        0 <= a < s.len(),
        valid_shape(s),
    ensures
        valid_shape(s.update(a, 1)),
{
    let t = s.update(a, 1);
    assert(s =~= s.take(a) + (seq![s[a]] + s.skip(a + 1)));
    assert(t =~= s.take(a) + (seq![1usize] + s.skip(a + 1)));
    lemma_nonzero_product_concat(s.take(a), seq![s[a]] + s.skip(a + 1));
    lemma_nonzero_product_concat(seq![s[a]], s.skip(a + 1));
    lemma_nonzero_product_concat(s.take(a), seq![1usize] + s.skip(a + 1));
    lemma_nonzero_product_concat(seq![1usize], s.skip(a + 1));
    assert(seq![s[a]].drop_last() =~= Seq::<usize>::empty());
    assert(seq![1usize].drop_last() =~= Seq::<usize>::empty());
    assert(nonzero_product(seq![s[a]].drop_last()) == 1);
    assert(nonzero_product(seq![1usize].drop_last()) == 1);
    assert(nonzero_product(seq![1usize]) == 1);
    lemma_nonzero_product_positive(seq![s[a]]);
    let x = nonzero_product(s.take(a));
    let y = nonzero_product(s.skip(a + 1));
    let z = nonzero_product(seq![s[a]]);
    assert(x * (1 * y) <= x * (z * y)) by (nonlinear_arith)
        requires
            z >= 1,
    ;
}

/// A prefix never has a larger product of non-zero lengths than the whole shape.
pub proof fn lemma_nonzero_product_prefix(s: Seq<usize>, k: int)
    requires
        0 <= k <= s.len(),
    ensures
        nonzero_product(s.take(k)) <= nonzero_product(s),
{
    assert(s =~= s.take(k) + s.skip(k));
    lemma_nonzero_product_concat(s.take(k), s.skip(k));
    lemma_nonzero_product_positive(s.skip(k));
    let x = nonzero_product(s.take(k));
    let y = nonzero_product(s.skip(k));
    assert(x <= x * y) by (nonlinear_arith)
        requires
            y >= 1,
    ;
}

/// One slice along axis `a` holds `outer * inner` elements.
pub proof fn lemma_unit_slice_len(s: Seq<usize>, a: int)
    requires
        0 <= a < s.len(),
    ensures
        product(s.update(a, 1)) == outer(s, a) * inner(s, a),
{
    lemma_product_split(s.update(a, 1), a);
    lemma_update_keeps_outer_inner(s, a, 1);
}

/// Two arrays joined along `a` hold as many elements as their joined shape.
pub proof fn lemma_concat_len(e1: Seq<u32>, e2: Seq<u32>, s1: Seq<usize>, s2: Seq<usize>, a: int)
    requires
        0 <= a < s1.len(),
        same_except(s1, s2, a),
        s1[a] + s2[a] <= usize::MAX,
    ensures
        concat_elems(e1, e2, s1, s2, a).len() == product(joined_shape(s1, s2, a)),
{
    let j = joined_shape(s1, s2, a);
    lemma_product_split(j, a);
    lemma_update_keeps_outer_inner(s1, a, j[a]);
    let o = outer(s1, a);
    let n = inner(s1, a);
    let x = s1[a] as nat;
    let y = s2[a] as nat;
    assert(o * (x * n + y * n) == o * ((x + y) * n)) by (nonlinear_arith);
}

/// Where an element of two joined arrays comes from: indices below the first
/// array's length along `a` read the first array, the others the second.
pub proof fn lemma_concat_at(
    e1: Seq<u32>,
    e2: Seq<u32>,
    s1: Seq<usize>,
    s2: Seq<usize>,
    a: int,
    o: int,
    k: int,
    j: int,
)
    requires
        0 <= a < s1.len(),
        same_except(s1, s2, a),
        s1[a] + s2[a] <= usize::MAX,
        0 <= o < outer(s1, a),
        0 <= k < s1[a] + s2[a],
        0 <= j < inner(s1, a),
    ensures
        0 <= position(joined_shape(s1, s2, a), a, o, k, j) < concat_elems(e1, e2, s1, s2, a).len(),
        k < s1[a] ==> concat_elems(e1, e2, s1, s2, a)[position(joined_shape(s1, s2, a), a, o, k, j)]
            == e1[position(s1, a, o, k, j)],
        k >= s1[a] ==> concat_elems(e1, e2, s1, s2, a)[position(joined_shape(s1, s2, a), a, o, k, j)]
            == e2[position(s2, a, o, k - s1[a], j)],
{
    let sj = joined_shape(s1, s2, a);
    lemma_update_keeps_outer_inner(s1, a, sj[a]);
    lemma_same_except_outer_inner(s1, s2, a);
    let n = inner(s1, a) as int;
    let x = s1[a] as int;
    let y = s2[a] as int;
    let b1 = x * n;
    let b2 = y * n;
    let bb = b1 + b2;
    let r = k * n + j;
    let i = o * bb + r;
    assert(sj[a] as int * n == bb) by (nonlinear_arith)
        requires
            sj[a] as int == x + y,
            b1 == x * n,
            b2 == y * n,
            bb == b1 + b2,
    ;
    assert(position(sj, a, o, k, j) == i);
    assert(0 <= r < bb) by (nonlinear_arith)
        requires
            0 <= k < x + y,
            0 <= j < n,
            r == k * n + j,
            bb == (x + y) * n,
    ;
    assert(0 <= i < outer(s1, a) * bb) by (nonlinear_arith)
        requires
            0 <= o < outer(s1, a),
            0 <= r < bb,
            i == o * bb + r,
    ;
    lemma_fundamental_div_mod_converse(i, bb, o, r);
    if k < x {
        assert(r < b1) by (nonlinear_arith)
            requires
                k < x,
                0 <= j < n,
                r == k * n + j,
                b1 == x * n,
        ;
    } else {
        assert(r >= b1) by (nonlinear_arith)
            requires
                k >= x,
                0 <= j,
                n >= 0,
                r == k * n + j,
                b1 == x * n,
        ;
        assert(o * b2 + r - b1 == o * b2 + (k - x) * n + j) by (nonlinear_arith)
            requires
                r == k * n + j,
                b1 == x * n,
        ;
    }
}

} // verus!
