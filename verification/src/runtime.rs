//! The user side: tensors, submissions and completions, and the single-node requests of
//! an inference engine.

pub mod message;
pub mod ort;
pub mod tensor;
pub mod uring;
