//! The binary interface that the user side, the scheduler and the backend share.

pub mod builder;
pub mod control;
pub mod dag;
pub mod desc;
pub mod error;
pub mod graph;
pub mod kernel;
pub mod kernelattr;
pub mod layout;
pub mod node;
pub mod types;
pub mod version;
