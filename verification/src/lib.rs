//! Safe staged data migration: batch planning, migration state, resume
//! planning and the safety rules that guard destructive steps.

pub mod paths;
pub mod plan;
pub mod text;
pub mod models;
pub mod config;
pub mod error;
pub mod resume;
pub mod migration_registry;
pub mod size;
pub mod prompt;
pub mod cli;
pub mod detection;
pub mod platform;
pub mod preflight;
pub mod format;
pub mod capacity;
pub mod clock;
pub mod cleanup;
pub mod conflict;
pub mod progress;
pub mod workflow;
