use vstd::prelude::*;
use wgpu::util::DeviceExt;

verus! {

#[verifier::external_type_specification]
#[verifier::external_body]
pub struct ExBuffer(wgpu::Buffer);

#[verifier::external_type_specification]
#[verifier::external_body]
pub struct ExDevice(wgpu::Device);

#[verifier::external_type_specification]
#[verifier::external_body]
pub struct ExBindingResource<'a>(wgpu::BindingResource<'a>);

/// Bits of wgpu's `BufferUsages` flags.
pub const USAGE_MAP_READ: u32 = 0x1;
pub const USAGE_MAP_WRITE: u32 = 0x2;
pub const USAGE_COPY_SRC: u32 = 0x4;
pub const USAGE_COPY_DST: u32 = 0x8;
pub const USAGE_INDEX: u32 = 0x10;
pub const USAGE_VERTEX: u32 = 0x20;
pub const USAGE_UNIFORM: u32 = 0x40;
pub const USAGE_STORAGE: u32 = 0x80;
pub const USAGE_INDIRECT: u32 = 0x100;
pub const USAGE_QUERY_RESOLVE: u32 = 0x200;
/// Every defined usage bit.
pub const USAGE_ALL: u32 = 0x3ff;

/// A usage that every wgpu device accepts for a new buffer: not empty, only
/// defined bits, no index use beside another binding use (some devices refuse
/// it), and mapping only together with the matching copy.
pub open spec fn usage_accepted(bits: u32) -> bool {
    &&& bits != 0
    &&& bits & !USAGE_ALL == 0
    &&& !(bits & USAGE_INDEX != 0 && bits & (USAGE_VERTEX | USAGE_UNIFORM | USAGE_INDIRECT
        | USAGE_STORAGE) != 0)
    &&& (bits & USAGE_MAP_WRITE != 0 ==> bits & !(USAGE_MAP_WRITE | USAGE_COPY_SRC) == 0)
    &&& (bits & USAGE_MAP_READ != 0 ==> bits & !(USAGE_MAP_READ | USAGE_COPY_DST) == 0)
}

/// Decides `usage_accepted`.
pub fn is_usage_accepted(bits: u32) -> (r: bool)
    ensures
        r == usage_accepted(bits),
{
    bits != 0 && bits & !USAGE_ALL == 0 && !(bits & USAGE_INDEX != 0 && bits & (USAGE_VERTEX
        | USAGE_UNIFORM | USAGE_INDIRECT | USAGE_STORAGE) != 0) && (bits & USAGE_MAP_WRITE == 0
        || bits & !(USAGE_MAP_WRITE | USAGE_COPY_SRC) == 0) && (bits & USAGE_MAP_READ == 0 || bits
        & !(USAGE_MAP_READ | USAGE_COPY_DST) == 0)
}

/// Byte `k` (0 = lowest) of `x`.
pub open spec fn byte_of(x: u32, k: int) -> u8 {
    ((x >> ((8 * k) as u32)) & 0xff) as u8
}

/// Elements as bytes, four per element, lowest byte first.
pub open spec fn le_bytes(v: Seq<u32>) -> Seq<u8> {
    Seq::new(4 * v.len(), |i: int| byte_of(v[i / 4], i % 4))
}

/// Elements as bytes, four per element, highest byte first.
pub open spec fn be_bytes(v: Seq<u32>) -> Seq<u8> {
    Seq::new(4 * v.len(), |i: int| byte_of(v[i / 4], 3 - i % 4))
}

/// The largest buffer, in bytes, that a device accepts.
pub uninterp spec fn max_buffer_size_of(d: wgpu::Device) -> u64;

/// Relies on bytemuck's `cast_slice` from `u32` to `u8`: the elements' bytes in
/// the machine's own order, four per element; it cannot fail for these two types.
#[verifier::external_body]
pub(crate) fn element_bytes(v: &Vec<u32>) -> (r: Vec<u8>)
    ensures
        r@ == le_bytes(v@) || r@ == be_bytes(v@),
{
    bytemuck::cast_slice::<u32, u8>(v.as_slice()).to_vec()
}

/// Relies on wgpu's `Device::limits`: the limits the device was created with,
/// fixed for its lifetime; here their largest buffer size.
#[verifier::external_body]
pub(crate) fn device_max_buffer_size(device: &wgpu::Device) -> (r: u64)
    ensures
        r == max_buffer_size_of(*device),
{
    device.limits().max_buffer_size
}

/// Relies on wgpu's `DeviceExt::create_buffer_init`: a new device buffer that
/// starts with `contents`, with the usage given by its bits and the debug label.
/// wgpu hands a refused buffer to the device's error handler, which panics by
/// default: a length within the device's limit (a whole number of words, so
/// no padding grows it) and an accepted usage keep it from refusing.
#[verifier::external_body]
pub(crate) fn upload_buffer(
    device: &wgpu::Device,
    contents: &Vec<u8>,
    usage: u32,
    label: Option<&str>,
) -> (r: wgpu::Buffer)
    requires
        contents@.len() % 4 == 0,
        contents@.len() <= max_buffer_size_of(*device),
        usage_accepted(usage),
{
    device.create_buffer_init(
        &wgpu::util::BufferInitDescriptor {
            label,
            contents: contents.as_slice(),
            usage: wgpu::BufferUsages::from_bits_retain(usage),
        },
    )
}

/// Relies on wgpu's `Buffer::as_entire_binding`: a binding of the whole buffer.
#[verifier::external_body]
pub(crate) fn entire_binding(buffer: &wgpu::Buffer) -> (r: wgpu::BindingResource<'_>) {
    buffer.as_entire_binding()
}

} // verus!
