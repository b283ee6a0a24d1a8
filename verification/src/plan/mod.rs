//! Planning: cutting the source files into batches, and the immutable
//! manifest that later runs are checked against.

pub mod batching;
pub mod loading;
pub mod manifest;
pub mod order;
pub mod types;
