//! The kernels: what a call must look like, and which element goes where.
//!
//! Arithmetic on floating-point elements is handed in by the caller, element by
//! element; elements are carried as bit patterns.

pub mod binary;
pub mod call;
pub mod cast;
pub mod concat;
pub mod conv2d;
pub mod dispatch;
pub mod float;
pub mod gather;
pub mod glu;
pub mod logical;
pub mod matmul;
pub mod meta;
pub mod nn;
pub mod pool;
pub mod reduce;
pub mod resize;
pub mod sums;
pub mod topk;
pub mod transform;
pub mod unary;
