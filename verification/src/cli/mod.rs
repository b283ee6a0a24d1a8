//! The command line as the library reads it: subcommands, their options, and the
//! rules that turn them into a run configuration.

use vstd::prelude::*;

use crate::config::{ConflictPolicy, CopyStrategy, OutputFormat};

pub mod args;
pub mod config_builder;

verus! {

/// The whole command line.
#[derive(Debug, Clone, PartialEq, Eq)]
pub struct Cli {
    pub log_level: String,
    pub command: Option<Command>,
}

/// The subcommands.
#[derive(Debug, Clone, PartialEq, Eq)]
pub enum Command {
    Staging(TransferArgs),
    Migrate(MigrateArgs),
    Status(StateArgs),
    Resume(ResumeArgs),
}

/// Options of `staging`, and the base options of `migrate`.
#[derive(Debug, Clone, PartialEq, Eq)]
pub struct TransferArgs {
    pub source: String,
    pub dest: String,
    pub batch_size: u64,
    pub max_files: Option<u64>,
    pub interactive: bool,
    pub skip_conflicts: bool,
    pub recover_failed: bool,
    pub allow_unsafe_filesystems: bool,
    pub copy_strategy: CopyStrategyArg,
    pub conflict_policy: ConflictPolicyArg,
}

/// Options of `migrate`.
#[derive(Debug, Clone, PartialEq, Eq)]
pub struct MigrateArgs {
    pub base: TransferArgs,
    pub snapshot_every: Option<u32>,
    pub snapshot_dir: Option<String>,
}

/// Options of `status`.
#[derive(Debug, Clone, PartialEq, Eq)]
pub struct StateArgs {
    pub state: String,
    pub output: OutputFormatArg,
}

/// Options of `resume`.
#[derive(Debug, Clone, PartialEq, Eq)]
pub struct ResumeArgs {
    pub state: String,
    pub recover_failed: bool,
    pub inspect_failed: bool,
    pub output: OutputFormatArg,
}

/// The values of `--copy-strategy`.
#[derive(Debug, Clone, Copy, PartialEq, Eq, Structural)]
pub enum CopyStrategyArg {
    Auto,
    Native,
    Buffered,
}

/// The values of `--conflict-policy`.
#[derive(Debug, Clone, Copy, PartialEq, Eq, Structural)]
pub enum ConflictPolicyArg {
    SkipFile,
    SkipBatch,
}

/// The values of `--output`.
#[derive(Debug, Clone, Copy, PartialEq, Eq, Structural)]
pub enum OutputFormatArg {
    Human,
    Json,
}

/// The copy strategy that a `--copy-strategy` value selects.
pub open spec fn copy_strategy_of(value: CopyStrategyArg) -> CopyStrategy {
    match value {
        CopyStrategyArg::Auto => CopyStrategy::Auto,
        CopyStrategyArg::Native => CopyStrategy::Native,
        CopyStrategyArg::Buffered => CopyStrategy::Buffered,
    }
}

/// The conflict policy that a `--conflict-policy` value selects.
pub open spec fn conflict_policy_of(value: ConflictPolicyArg) -> ConflictPolicy {
    match value {
        ConflictPolicyArg::SkipFile => ConflictPolicy::SkipFile,
        ConflictPolicyArg::SkipBatch => ConflictPolicy::SkipBatch,
    }
}

/// The output format that an `--output` value selects.
pub open spec fn output_format_of(value: OutputFormatArg) -> OutputFormat {
    match value {
        OutputFormatArg::Human => OutputFormat::Human,
        OutputFormatArg::Json => OutputFormat::Json,
    }
}

impl From<CopyStrategyArg> for CopyStrategy {
    fn from(value: CopyStrategyArg) -> (r: Self) {
        match value {
            CopyStrategyArg::Auto => CopyStrategy::Auto,
            CopyStrategyArg::Native => CopyStrategy::Native,
            CopyStrategyArg::Buffered => CopyStrategy::Buffered,
        }
    }
}

impl vstd::std_specs::convert::FromSpecImpl<CopyStrategyArg> for CopyStrategy {
    open spec fn obeys_from_spec() -> bool {
        true
    }

    open spec fn from_spec(v: CopyStrategyArg) -> CopyStrategy {
        copy_strategy_of(v)
    }
}

impl From<ConflictPolicyArg> for ConflictPolicy {
    fn from(value: ConflictPolicyArg) -> (r: Self) {
        match value {
            ConflictPolicyArg::SkipFile => ConflictPolicy::SkipFile,
            ConflictPolicyArg::SkipBatch => ConflictPolicy::SkipBatch,
        }
    }
}

impl vstd::std_specs::convert::FromSpecImpl<ConflictPolicyArg> for ConflictPolicy {
    open spec fn obeys_from_spec() -> bool {
        true
    }

    open spec fn from_spec(v: ConflictPolicyArg) -> ConflictPolicy {
        conflict_policy_of(v)
    }
}

impl From<OutputFormatArg> for OutputFormat {
    fn from(value: OutputFormatArg) -> (r: Self) {
        match value {
            OutputFormatArg::Human => OutputFormat::Human,
            OutputFormatArg::Json => OutputFormat::Json,
        }
    }
}

impl vstd::std_specs::convert::FromSpecImpl<OutputFormatArg> for OutputFormat {
    open spec fn obeys_from_spec() -> bool {
        true
    }

    open spec fn from_spec(v: OutputFormatArg) -> OutputFormat {
        output_format_of(v)
    }
}

} // verus!
