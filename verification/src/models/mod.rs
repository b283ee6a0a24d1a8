//! Data carried through a migration: planned files and batches, the
//! per-batch state machine and the persisted migration state.

pub mod batch;
pub mod file_entry;
pub mod state;
pub mod verification;
