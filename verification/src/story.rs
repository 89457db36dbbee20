//! A runner for one small story model: its file, its tokens and its forward pass.

pub mod forward;
pub mod gguf;
pub mod input;
pub mod model;
pub mod sample;
pub mod session;
pub mod tokenizer;
pub mod weights;
