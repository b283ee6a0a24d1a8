//! The outcome of comparing a copied batch with its source.

use vstd::prelude::*;

verus! {

/// How file contents were compared.
#[derive(Debug, Clone, Copy, PartialEq, Eq, Structural)]
pub enum DigestModeUsed {
    /// Contents were not hashed (sizes only).
    NoDigest,
    Blake3,
}

/// Whether the comparison passed.
#[derive(Debug, Clone, Copy, PartialEq, Eq, Structural)]
pub enum VerificationStatus {
    Pass,
    Fail,
}

/// What verifying a batch found.
#[derive(Debug, Clone, PartialEq, Eq)]
pub struct VerificationReport {
    pub file_count: usize,
    pub bytes_compared: u64,
    pub missing_files: Vec<String>,
    pub mismatched_files: Vec<String>,
    pub unreadable_files: Vec<String>,
    pub digest_mode_used: DigestModeUsed,
    pub status: VerificationStatus,
    pub recommended_action: String,
}

} // verus!
