//! A host tensor of `u32` elements paired with a lazily uploaded GPU buffer.
//!
//! - `shape`: shape arithmetic and the row-major layout, as spec functions and lemmas.
//! - `nd`: the ndarray store that holds the elements.
//! - `device`: byte conversion and buffer upload through bytemuck and wgpu.
//! - `tensor`: the tensor, its operations and their contracts.
//! - `laws`: properties that relate the operations, proved over the tensor model.
pub mod shape;
pub mod nd;
pub mod device;
pub mod tensor;
pub mod laws;
