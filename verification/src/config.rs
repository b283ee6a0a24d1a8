//! Run configuration: which mode, where from, where to, and how.

use vstd::prelude::*;

verus! {

/// The two transfer modes.
#[derive(Debug, PartialEq, Eq, Structural)]
pub enum Mode {
    Staging,
    Migrate,
}

impl Clone for Mode {
    fn clone(&self) -> (r: Self)
        ensures
            r == *self,
    {
        match self {
            Mode::Staging => Mode::Staging,
            Mode::Migrate => Mode::Migrate,
        }
    }
}

/// How files are copied.
#[derive(Debug, Clone, Copy, PartialEq, Eq, Structural)]
pub enum CopyStrategy {
    Auto,
    Native,
    /// Legacy state compatibility variant; treated the same as `Auto`.
    Buffered,
}

impl Default for CopyStrategy {
    fn default() -> (r: Self)
        ensures
            r == CopyStrategy::Auto,
    {
        CopyStrategy::Auto
    }
}

/// What to do with a batch when some of its files already exist at the destination.
#[derive(Debug, Clone, Copy, PartialEq, Eq, Structural)]
pub enum ConflictPolicy {
    /// Copy the files that do not conflict and leave the batch for operator review.
    SkipFile,
    /// Copy nothing of the batch and leave it for operator review.
    SkipBatch,
}

impl Default for ConflictPolicy {
    fn default() -> (r: Self)
        ensures
            r == ConflictPolicy::SkipFile,
    {
        ConflictPolicy::SkipFile
    }
}

/// Everything a staging or migrate run needs to know.
#[derive(Debug, Clone, PartialEq, Eq)]
pub struct TransferConfig {
    pub mode: Mode,
    pub source: String,
    pub dest: String,
    pub batch_size_bytes: u64,
    pub max_files: Option<u64>,
    pub snapshot_every: Option<u32>,
    pub snapshot_dir: Option<String>,
    pub interactive: bool,
    pub log_level: String,
    pub skip_conflicts: bool,
    pub conflict_policy: ConflictPolicy,
    pub recover_failed: bool,
    pub allow_unsafe_filesystems: bool,
    pub copy_strategy: CopyStrategy,
}

/// How command results are printed.
#[derive(Debug, Clone, Copy, PartialEq, Eq, Structural)]
pub enum OutputFormat {
    Human,
    Json,
}

impl Default for OutputFormat {
    fn default() -> (r: Self)
        ensures
            r == OutputFormat::Human,
    {
        OutputFormat::Human
    }
}

/// A parsed command line.
#[derive(Debug, Clone, PartialEq, Eq)]
pub enum Config {
    Staging(TransferConfig),
    Migrate(TransferConfig),
    Status { state: String, log_level: String, output: OutputFormat },
    Resume {
        state: String,
        log_level: String,
        recover_failed: bool,
        inspect_failed: bool,
        output: OutputFormat,
    },
}

} // verus!
