//! Verified core of a graph runtime for heterogeneous AI kernels.

pub mod backend;
pub mod bridge;
pub mod bytes;
pub mod detect;
mod memory;
pub mod picture;
pub mod runtime;
pub mod sched;
pub mod shape;
pub mod story;
pub mod text;
pub mod uabi;
