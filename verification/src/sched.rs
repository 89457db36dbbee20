//! The scheduler: graphs become task chains, chains wait in a queue for each core, and
//! a worker on that core runs them.

pub mod host;
pub mod link;
pub mod ring;
pub mod scheduler;
pub mod worker;
