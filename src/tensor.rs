use crate::device::{
    be_bytes, device_max_buffer_size, element_bytes, entire_binding, is_usage_accepted, le_bytes,
    max_buffer_size_of, upload_buffer, usage_accepted,
};
use crate::nd::{
    nd_clone, nd_concatenate, nd_elems, nd_first_slice, nd_from_elem, nd_from_shape_vec,
    nd_from_shape_vec_col_major, nd_get,
    nd_set, nd_shape, nd_shape_vec, nd_to_vec, nd_zeros, NdArray,
};
use crate::shape::{
    col_major_index, concat_elems, first_slice_elems, flat_index, index_in_bounds, joined_shape, lemma_concat_len,
    lemma_nonzero_product_prefix, lemma_product_le_nonzero, lemma_unit_axis_valid,
    lemma_unit_slice_len, max_elements, nonzero_product, product, same_except, valid_shape,
    ELEMENT_BYTES,
};
use vstd::prelude::*;

verus! {

/// Why an operation on a tensor was refused.
#[derive(Debug, Clone, Copy, PartialEq, Eq, Structural)]
pub enum TensorError {
    /// A flat sequence's length disagrees with the shape it is meant to fill.
    ShapeMismatch,
    /// Operands disagree on an axis that must match, or the axis does not exist.
    DimensionMismatch,
    /// The device buffer was never uploaded, or a shape change dropped it.
    BufferNotMaterialized,
    /// The device would refuse the buffer: its usage or its size.
    BufferRejected,
    /// The element count, or its byte length, is not representable.
    ShapeOverflow,
}

/// What a tensor holds, seen mathematically.
pub struct TensorModel {
    /// Axis lengths, first axis first.
    pub shape: Seq<usize>,
    /// Elements in row-major order.
    pub elems: Seq<u32>,
    /// Byte length of the host elements.
    pub byte_size: nat,
    /// The device copy, where one is held.
    pub device: Option<DeviceCopy>,
}

/// A device buffer and what was handed to the device to fill it.
pub struct DeviceCopy {
    /// The buffer handle.
    pub buffer: wgpu::Buffer,
    /// The bytes it was created with.
    pub bytes: Seq<u8>,
    /// The bits of its usage flags.
    pub usage: u32,
}

/// A dense array of `u32` in host memory, with an optional device copy of its bytes.
pub struct Tensor {
    data: NdArray,
    buffer: Option<wgpu::Buffer>,
    buf_size: usize,
    upload: Ghost<(Seq<u8>, u32)>,
}

/// Elements hold the shape's count, the shape is addressable, and the byte
/// length is kept in step.
pub open spec fn well_formed(m: TensorModel) -> bool {
    &&& m.elems.len() == product(m.shape)
    &&& valid_shape(m.shape)
    &&& m.byte_size == product(m.shape) * (ELEMENT_BYTES as nat)
}

/// The shape `s` with axis `a` cut down to one slice.
pub open spec fn unit_slice_shape(s: Seq<usize>, a: int) -> Seq<usize> {
    s.update(a, 1)
}

/// A zero-filled tensor of shape `s`.
pub open spec fn zeros_model(s: Seq<usize>) -> TensorModel {
    TensorModel {
        shape: s,
        elems: Seq::new(product(s), |i: int| 0u32),
        byte_size: product(s) * (ELEMENT_BYTES as nat),
        device: None,
    }
}

/// Outcome of filling shape `s` from a flat sequence of length `len`.
pub open spec fn from_data_check(s: Seq<usize>, len: nat) -> Result<(), TensorError> {
    if !valid_shape(s) {
        Err(TensorError::ShapeOverflow)
    } else if len != product(s) {
        Err(TensorError::ShapeMismatch)
    } else {
        Ok(())
    }
}

/// A tensor of shape `s` filled in row-major order from `v`.
pub open spec fn from_data_model(s: Seq<usize>, v: Seq<u32>) -> TensorModel {
    TensorModel {
        shape: s,
        elems: v,
        byte_size: product(s) * (ELEMENT_BYTES as nat),
        device: None,
    }
}

/// Outcome of joining shape `s2` onto `s1` along axis `a`.
pub open spec fn concat_check(s1: Seq<usize>, s2: Seq<usize>, a: int) -> Result<(), TensorError> {
    if !(0 <= a < s1.len() && same_except(s1, s2, a)) {
        Err(TensorError::DimensionMismatch)
    } else if s1[a] + s2[a] > usize::MAX || !valid_shape(joined_shape(s1, s2, a)) {
        Err(TensorError::ShapeOverflow)
    } else {
        Ok(())
    }
}

/// A tensor after the array of shape `s2` and elements `e2` is joined onto it
/// along axis `a`: any device buffer is gone.
pub open spec fn concat_model(m: TensorModel, s2: Seq<usize>, e2: Seq<u32>, a: int) -> TensorModel {
    let s = joined_shape(m.shape, s2, a);
    TensorModel {
        shape: s,
        elems: concat_elems(m.elems, e2, m.shape, s2, a),
        byte_size: product(s) * (ELEMENT_BYTES as nat),
        device: None,
    }
}

/// Outcome of appending a flat slice of length `len` along axis `a`.
pub open spec fn vector_check(s: Seq<usize>, len: nat, a: int) -> Result<(), TensorError> {
    if !(0 <= a < s.len()) {
        Err(TensorError::DimensionMismatch)
    } else if len != product(unit_slice_shape(s, a)) {
        Err(TensorError::ShapeMismatch)
    } else {
        concat_check(s, unit_slice_shape(s, a), a)
    }
}

/// Outcome of appending one constant slice along axis `a`.
pub open spec fn enlarge_check(s: Seq<usize>, a: int) -> Result<(), TensorError> {
    if !(0 <= a < s.len()) {
        Err(TensorError::DimensionMismatch)
    } else {
        concat_check(s, unit_slice_shape(s, a), a)
    }
}

/// Outcome of appending a copy of the first slice along axis `a`, which must
/// exist and be non-empty.
pub open spec fn duplicate_check(s: Seq<usize>, a: int) -> Result<(), TensorError> {
    if !(0 <= a < s.len()) || s[a] == 0 {
        Err(TensorError::DimensionMismatch)
    } else {
        concat_check(s, unit_slice_shape(s, a), a)
    }
}

/// A tensor after one slice whose elements are all `value` is appended along axis `a`.
pub open spec fn enlarge_model(m: TensorModel, a: int, value: u32) -> TensorModel {
    let u = unit_slice_shape(m.shape, a);
    concat_model(m, u, Seq::new(product(u), |i: int| value), a)
}

/// A tensor after a copy of its slice at index 0 along axis `a` is appended.
pub open spec fn duplicate_model(m: TensorModel, a: int) -> TensorModel {
    concat_model(m, unit_slice_shape(m.shape, a), first_slice_elems(m.elems, m.shape, a), a)
}

/// Computes the element count of a shape, or `None` where the shape is not valid.
fn element_count(shape: &[usize]) -> (r: Option<usize>)
    ensures
        r is Some <==> valid_shape(shape@),
        r matches Some(n) ==> n == product(shape@),
{
    let limit: usize = (isize::MAX as usize) / ELEMENT_BYTES;
    let mut nz: usize = 1;
    let mut count: usize = 1;
    let mut i: usize = 0;
    while i < shape.len()
        invariant
            0 <= i <= shape@.len(),
            limit == max_elements(),
            nz == nonzero_product(shape@.take(i as int)),
            count == product(shape@.take(i as int)),
            count <= nz <= limit,
        decreases shape@.len() - i,
    {
        let d = shape[i];
        proof {
            assert(shape@.take(i + 1).drop_last() =~= shape@.take(i as int));
            assert(shape@.take(i + 1).last() == d);
            assert(product(shape@.take(i + 1)) == count * d);
        }
        if d != 0 {
            match nz.checked_mul(d) {
                None => {
                    proof {
                        lemma_nonzero_product_prefix(shape@, i + 1);
                    }
                    return None;
                },
                Some(m) => {
                    if m > limit {
                        proof {
                            lemma_nonzero_product_prefix(shape@, i + 1);
                        }
                        return None;
                    }
                    proof {
                        assert(count * d <= nz * d) by (nonlinear_arith)
                            requires
                                count <= nz,
                        ;
                    }
                    nz = m;
                    count = count * d;
                },
            }
        } else {
            proof {
                assert(count * d == 0) by (nonlinear_arith)
                    requires
                        d == 0,
                ;
            }
            count = 0;
        }
        i = i + 1;
    }
    proof {
        assert(shape@.take(i as int) =~= shape@);
    }
    Some(count)
}

impl View for Tensor {
    type V = TensorModel;

    closed spec fn view(&self) -> TensorModel {
        TensorModel {
            shape: nd_shape(self.data),
            elems: nd_elems(self.data),
            byte_size: self.buf_size as nat,
            device: match self.buffer {
                Some(b) => Some(DeviceCopy { buffer: b, bytes: self.upload@.0, usage: self.upload@.1 }),
                None => None,
            },
        }
    }
}

impl Tensor {
    /// The tensor's invariant.
    pub open spec fn wf(&self) -> bool {
        well_formed(self@)
    }

    /// A tensor of the given shape with every element zero; fails with
    /// `ShapeOverflow` where the shape is not addressable.
    pub fn zeros(shape: &[usize]) -> (r: Result<Tensor, TensorError>)
        ensures
            r is Ok <==> valid_shape(shape@),
            r matches Err(e) ==> e == TensorError::ShapeOverflow,
            r matches Ok(t) ==> t.wf() && t@ == zeros_model(shape@),
    {
        match element_count(shape) {
            None => Err(TensorError::ShapeOverflow),
            Some(n) => {
                proof {
                    lemma_product_le_nonzero(shape@);
                }
                let data = nd_zeros(shape);
                Ok(Tensor { data, buffer: None, buf_size: n * ELEMENT_BYTES, upload: Ghost((Seq::empty(), 0)) })
            },
        }
    }

    /// A tensor of the given shape whose elements, in row-major order, are `data`.
    /// Fails with `ShapeOverflow` where the shape is not addressable, and
    /// otherwise with `ShapeMismatch` where the lengths disagree.
    pub fn from_data(data: Vec<u32>, shape: &[usize]) -> (r: Result<Tensor, TensorError>)
        ensures
            r is Ok <==> from_data_check(shape@, data@.len()) is Ok,
            r matches Err(e) ==> from_data_check(shape@, data@.len()) == Err::<(), TensorError>(e),
            r matches Ok(t) ==> t.wf() && t@ == from_data_model(shape@, data@),
    {
        match element_count(shape) {
            None => Err(TensorError::ShapeOverflow),
            Some(n) => {
                proof {
                    lemma_product_le_nonzero(shape@);
                }
                if data.len() != n {
                    return Err(TensorError::ShapeMismatch);
                }
                match nd_from_shape_vec(shape, data) {
                    Ok(arr) => Ok(Tensor { data: arr, buffer: None, buf_size: n * ELEMENT_BYTES, upload: Ghost((Seq::empty(), 0)) }),
                    Err(_) => Err(TensorError::ShapeMismatch),
                }
            },
        }
    }

    /// A tensor of the given shape whose elements, in column-major order (first
    /// axis fastest), are `data`. Fails as `from_data` does.
    pub fn from_data_column_major(data: Vec<u32>, shape: &[usize]) -> (r: Result<Tensor, TensorError>)
        ensures
            r is Ok <==> from_data_check(shape@, data@.len()) is Ok,
            r matches Err(e) ==> from_data_check(shape@, data@.len()) == Err::<(), TensorError>(e),
            r matches Ok(t) ==> t.wf() && t@.shape == shape@ && t@.device is None,
            r matches Ok(t) ==> forall|idx: Seq<usize>| index_in_bounds(shape@, idx) ==> t@.elems[flat_index(shape@, idx) as int] == data@[col_major_index(shape@, idx) as int],
    {
        match element_count(shape) {
            None => Err(TensorError::ShapeOverflow),
            Some(n) => {
                proof {
                    lemma_product_le_nonzero(shape@);
                }
                if data.len() != n {
                    return Err(TensorError::ShapeMismatch);
                }
                match nd_from_shape_vec_col_major(shape, data) {
                    Ok(arr) => Ok(
                        Tensor {
                            data: arr,
                            buffer: None,
                            buf_size: n * ELEMENT_BYTES,
                            upload: Ghost((Seq::empty(), 0)),
                        },
                    ),
                    Err(_) => Err(TensorError::ShapeMismatch),
                }
            },
        }
    }

    /// The shape with axis `dim` cut to one slice, and its element count.
    fn unit_slice(&self, dim: usize) -> (r: (Vec<usize>, usize))
        requires
            self.wf(),
            dim < self@.shape.len(),
        ensures
            r.0@ == unit_slice_shape(self@.shape, dim as int),
            r.1 == product(r.0@),
            valid_shape(r.0@),
    {
        let mut s = nd_shape_vec(&self.data);
        s.set(dim, 1);
        proof {
            lemma_unit_axis_valid(self@.shape, dim as int);
        }
        match element_count(s.as_slice()) {
            Some(n) => (s, n),
            None => (s, 0),
        }
    }

    /// Appends one slice along axis `dim` whose elements, in row-major order,
    /// are `vec`. Fails with `DimensionMismatch` where the axis does not exist,
    /// with `ShapeMismatch` where `vec` does not hold one slice's count, and
    /// with `ShapeOverflow` where the result is not addressable.
    pub fn concatenate_vector(&mut self, vec: &Vec<u32>, dim: usize) -> (r: Result<(), TensorError>)
        requires
            old(self).wf(),
        ensures
            final(self).wf(),
            r == vector_check(old(self)@.shape, vec@.len(), dim as int),
            r is Err ==> final(self)@ == old(self)@,
            r is Ok ==> final(self)@ == concat_model(old(self)@, unit_slice_shape(old(self)@.shape, dim as int), vec@, dim as int),
    {
        if dim >= nd_shape_vec(&self.data).len() {
            return Err(TensorError::DimensionMismatch);
        }
        let (unit, n) = self.unit_slice(dim);
        if vec.len() != n {
            return Err(TensorError::ShapeMismatch);
        }
        let values = vec.clone();
        proof {
            assert(values@ =~= vec@);
        }
        let slice = match Tensor::from_data(values, unit.as_slice()) {
            Ok(t) => t,
            Err(e) => {
                return Err(e);
            },
        };
        self.concatenate(&slice, dim)
    }

    /// Appends one slice along axis `dim` with every element `default_value`.
    /// Fails with `DimensionMismatch` where the axis does not exist, and with
    /// `ShapeOverflow` where the result is not addressable.
    pub fn enlarge_dimension(&mut self, dim: usize, default_value: u32) -> (r: Result<(), TensorError>)
        requires
            old(self).wf(),
        ensures
            final(self).wf(),
            r == enlarge_check(old(self)@.shape, dim as int),
            r is Err ==> final(self)@ == old(self)@,
            r is Ok ==> final(self)@ == enlarge_model(old(self)@, dim as int, default_value),
    {
        if dim >= nd_shape_vec(&self.data).len() {
            return Err(TensorError::DimensionMismatch);
        }
        let (unit, n) = self.unit_slice(dim);
        proof {
            lemma_product_le_nonzero(unit@);
        }
        let arr = nd_from_elem(unit.as_slice(), default_value);
        let slice = Tensor { data: arr, buffer: None, buf_size: n * ELEMENT_BYTES, upload: Ghost((Seq::empty(), 0)) };
        self.concatenate(&slice, dim)
    }

    /// Appends a copy of the slice at index 0 along axis `dim`. Fails with
    /// `DimensionMismatch` where the axis does not exist or is empty, and with
    /// `ShapeOverflow` where the result is not addressable.
    pub fn copy_dimension(&mut self, dim: usize) -> (r: Result<(), TensorError>)
        requires
            old(self).wf(),
        ensures
            final(self).wf(),
            r == duplicate_check(old(self)@.shape, dim as int),
            r is Err ==> final(self)@ == old(self)@,
            r is Ok ==> final(self)@ == duplicate_model(old(self)@, dim as int),
    {
        let s = nd_shape_vec(&self.data);
        if dim >= s.len() || s[dim] == 0 {
            return Err(TensorError::DimensionMismatch);
        }
        let (unit, n) = self.unit_slice(dim);
        proof {
            lemma_product_le_nonzero(unit@);
            lemma_unit_slice_len(self@.shape, dim as int);
        }
        let arr = nd_first_slice(&self.data, dim);
        let slice = Tensor { data: arr, buffer: None, buf_size: n * ELEMENT_BYTES, upload: Ghost((Seq::empty(), 0)) };
        self.concatenate(&slice, dim)
    }

    /// The axis lengths, first axis first.
    pub fn shape(&self) -> (r: Vec<usize>)
        ensures
            r@ == self@.shape,
    {
        nd_shape_vec(&self.data)
    }

    /// Joins `other` onto this tensor along axis `dim`. Fails with
    /// `DimensionMismatch` where the axis does not exist or the shapes differ on
    /// another axis, and with `ShapeOverflow` where the result is not
    /// addressable; a failure changes nothing. Success drops the device buffer
    /// of this tensor, not of `other`.
    pub fn concatenate(&mut self, other: &Tensor, dim: usize) -> (r: Result<(), TensorError>)
        requires
            old(self).wf(),
            other.wf(),
        ensures
            final(self).wf(),
            r == concat_check(old(self)@.shape, other@.shape, dim as int),
            r is Err ==> final(self)@ == old(self)@,
            r is Ok ==> final(self)@ == concat_model(old(self)@, other@.shape, other@.elems, dim as int),
    {
        let s1 = nd_shape_vec(&self.data);
        let s2 = nd_shape_vec(&other.data);
        if dim >= s1.len() || s1.len() != s2.len() {
            return Err(TensorError::DimensionMismatch);
        }
        let mut i: usize = 0;
        while i < s1.len()
            invariant
                self.wf(),
                self@ == old(self)@,
                s1@ == self@.shape,
                s2@ == other@.shape,
                s1@.len() == s2@.len(),
                0 <= i <= s1@.len(),
                forall|k: int| 0 <= k < i && k != dim ==> s1@[k] == s2@[k],
            decreases s1@.len() - i,
        {
            if i != dim && s1[i] != s2[i] {
                return Err(TensorError::DimensionMismatch);
            }
            i = i + 1;
        }
        let total = match s1[dim].checked_add(s2[dim]) {
            None => {
                return Err(TensorError::ShapeOverflow);
            },
            Some(t) => t,
        };
        let mut joined = nd_shape_vec(&self.data);
        joined.set(dim, total);
        proof {
            assert(joined@ =~= joined_shape(s1@, s2@, dim as int));
        }
        match element_count(joined.as_slice()) {
            None => Err(TensorError::ShapeOverflow),
            Some(n) => {
                proof {
                    lemma_product_le_nonzero(joined@);
                    lemma_concat_len(self@.elems, other@.elems, s1@, s2@, dim as int);
                }
                match nd_concatenate(&self.data, &other.data, dim) {
                    Ok(arr) => {
                        self.data = arr;
                        self.buffer = None;
                        self.buf_size = n * ELEMENT_BYTES;
                        Ok(())
                    },
                    Err(_) => Err(TensorError::ShapeOverflow),
                }
            },
        }
    }

    /// Every element in row-major order; the tensor is unchanged.
    pub fn to_array(&self) -> (r: Vec<u32>)
        ensures
            r@ == self@.elems,
    {
        nd_to_vec(&self.data)
    }

    /// Uploads the elements' bytes, four per element in the machine's byte
    /// order, into a new device buffer with the given usage bits and label,
    /// replacing any earlier one; the host elements stay. Fails with
    /// `BufferRejected`, changing nothing, where the device would refuse the
    /// buffer: a usage that not every device accepts, or more bytes than the
    /// device's largest buffer.
    pub fn create_buffer(&mut self, device: &wgpu::Device, usage: u32, label: Option<&str>) -> (r: Result<(), TensorError>)
        requires
            old(self).wf(),
        ensures
            final(self).wf(),
            r is Ok <==> usage_accepted(usage) && old(self)@.byte_size <= max_buffer_size_of(*device),
            r matches Err(e) ==> e == TensorError::BufferRejected && final(self)@ == old(self)@,
            r is Ok ==> final(self)@.shape == old(self)@.shape && final(self)@.elems == old(self)@.elems,
            r is Ok ==> final(self)@.byte_size == old(self)@.byte_size,
            r is Ok ==> (final(self)@.device matches Some(d) && d.usage == usage && d.bytes.len()
                == old(self)@.byte_size && (d.bytes == le_bytes(old(self)@.elems) || d.bytes
                == be_bytes(old(self)@.elems))),
    {
        if !is_usage_accepted(usage) {
            return Err(TensorError::BufferRejected);
        }
        let limit = device_max_buffer_size(device);
        if self.buf_size as u64 > limit {
            return Err(TensorError::BufferRejected);
        }
        let values = self.to_array();
        let bytes = element_bytes(&values);
        self.buffer = Some(upload_buffer(device, &bytes, usage, label));
        self.upload = Ghost((bytes@, usage));
        Ok(())
    }

    /// Byte length of the host elements.
    pub fn buffer_size(&self) -> (r: usize)
        ensures
            r == self@.byte_size,
    {
        self.buf_size
    }

    /// The device buffer; fails with `BufferNotMaterialized` where none is held.
    pub fn buffer(&self) -> (r: Result<&wgpu::Buffer, TensorError>)
        ensures
            r is Ok <==> self@.device is Some,
            r matches Ok(b) ==> (self@.device matches Some(d) && *b == d.buffer),
            r matches Err(e) ==> e == TensorError::BufferNotMaterialized,
    {
        match &self.buffer {
            Some(b) => Ok(b),
            None => Err(TensorError::BufferNotMaterialized),
        }
    }

    /// A binding of the whole device buffer; fails with `BufferNotMaterialized`
    /// where none is held.
    pub fn binding_resource(&self) -> (r: Result<wgpu::BindingResource<'_>, TensorError>)
        ensures
            r is Ok <==> self@.device is Some,
            r matches Err(e) ==> e == TensorError::BufferNotMaterialized,
    {
        match &self.buffer {
            Some(b) => Ok(entire_binding(b)),
            None => Err(TensorError::BufferNotMaterialized),
        }
    }

    /// The element at a multi-index.
    pub fn index(&self, idx: &[usize]) -> (r: u32)
        requires
            index_in_bounds(self@.shape, idx@),
        ensures
            r == self@.elems[flat_index(self@.shape, idx@) as int],
    {
        nd_get(&self.data, idx)
    }

    /// Writes the element at a multi-index; the shape and the device buffer stay.
    pub fn set(&mut self, idx: &[usize], value: u32)
        requires
            index_in_bounds(old(self)@.shape, idx@),
        ensures
            final(self)@ == (TensorModel {
                elems: old(self)@.elems.update(flat_index(old(self)@.shape, idx@) as int, value),
                ..old(self)@
            }),
    {
        nd_set(&mut self.data, idx, value);
    }
}

impl Clone for Tensor {
    /// A deep copy of the elements and the byte length, without the device buffer.
    fn clone(&self) -> (r: Tensor)
        ensures
            r@ == (TensorModel { device: None, ..self@ }),
    {
        Tensor {
            data: nd_clone(&self.data),
            buffer: None,
            buf_size: self.buf_size,
            upload: Ghost((Seq::empty(), 0)),
        }
    }
}

} // verus!
