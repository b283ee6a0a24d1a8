//! Inputs and outputs of planning.

use vstd::prelude::*;

use crate::models::batch::Batch;

verus! {

/// Limits for cutting files into batches.
#[derive(Debug, Clone, PartialEq, Eq)]
pub struct PlanOptions {
    pub batch_size_bytes: u64,
    pub max_files: Option<usize>,
}

/// A plan: the batches in order and the totals of the files they cover.
#[derive(Debug, Clone, PartialEq, Eq)]
pub struct PlanningSnapshot {
    pub source_file_count: usize,
    pub source_total_bytes: u64,
    pub batches: Vec<Batch>,
}

} // verus!
