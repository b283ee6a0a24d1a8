//! Errors of the library and their rendering.

use vstd::prelude::*;

use crate::models::verification::VerificationReport;
use crate::text::{concat, push_str};

verus! {

/// The findings of a failed verification that an operator needs to see.
#[derive(Debug, Clone, PartialEq, Eq)]
pub struct VerificationFailure {
    pub recommended_action: String,
    pub missing_files: Vec<String>,
    pub mismatched_files: Vec<String>,
    pub unreadable_files: Vec<String>,
}

impl VerificationFailure {
    /// Keeps the recommended action and the three file lists of `report`.
    pub fn from_report(report: VerificationReport) -> (r: Self)
        ensures
            r.recommended_action == report.recommended_action,
            r.missing_files == report.missing_files,
            r.mismatched_files == report.mismatched_files,
            r.unreadable_files == report.unreadable_files,
    {
        VerificationFailure {
            recommended_action: report.recommended_action,
            missing_files: report.missing_files,
            mismatched_files: report.mismatched_files,
            unreadable_files: report.unreadable_files,
        }
    }
}

/// Everything that can go wrong.
#[derive(Debug, Clone, PartialEq, Eq)]
pub enum CaravanError {
    Cli(String),
    InvalidArguments(String),
    NotImplemented(String),
    Resume { class: String, detail: String },
    Io(String),
    IoContext { context: String, source: String },
    PolicyBlocked(String),
    VerificationFailed(VerificationFailure),
    StateCorrupt(String),
    StateRead { path: String, source: String },
    StateParse { path: String, source: String },
    GracefulShutdown,
}

impl CaravanError {
    /// The text shown to an operator for this error.
    pub open spec fn message(self) -> Seq<char> {
        match self {
            CaravanError::Cli(s) => "cli error: "@ + s@,
            CaravanError::InvalidArguments(s) => "invalid arguments: "@ + s@,
            CaravanError::NotImplemented(s) => "not implemented: "@ + s@,
            CaravanError::Resume { class, detail } => "resume ("@ + class@ + "): "@ + detail@,
            CaravanError::Io(s) => "io error: "@ + s@,
            CaravanError::IoContext { context, source } => context@ + ": "@ + source@,
            CaravanError::PolicyBlocked(s) => "policy blocked: "@ + s@,
            CaravanError::VerificationFailed(_) => "verification failed"@,
            CaravanError::StateCorrupt(s) => "state corruption: "@ + s@,
            CaravanError::StateRead { path, source } => "failed to read state file "@ + path@
                + ": "@ + source@,
            CaravanError::StateParse { path, source } => "failed to parse state file "@ + path@
                + ": "@ + source@,
            CaravanError::GracefulShutdown => "graceful shutdown requested"@,
        }
    }

    /// Renders the error for an operator.
    #[allow(clippy::inherent_to_string)]
    pub fn to_string(&self) -> (r: String)
        ensures
            r@ == self.message(),
    {
        match self {
            CaravanError::Cli(s) => concat("cli error: ", s.as_str()),
            CaravanError::InvalidArguments(s) => concat("invalid arguments: ", s.as_str()),
            CaravanError::NotImplemented(s) => concat("not implemented: ", s.as_str()),
            CaravanError::Resume { class, detail } => {
                let mut out = concat("resume (", class.as_str());
                push_str(&mut out, "): ");
                push_str(&mut out, detail.as_str());
                out
            },
            CaravanError::Io(s) => concat("io error: ", s.as_str()),
            CaravanError::IoContext { context, source } => {
                let mut out = concat(context.as_str(), ": ");
                push_str(&mut out, source.as_str());
                out
            },
            CaravanError::PolicyBlocked(s) => concat("policy blocked: ", s.as_str()),
            CaravanError::VerificationFailed(_) => String::from_str("verification failed"),
            CaravanError::StateCorrupt(s) => concat("state corruption: ", s.as_str()),
            CaravanError::StateRead { path, source } => {
                let mut out = concat("failed to read state file ", path.as_str());
                push_str(&mut out, ": ");
                push_str(&mut out, source.as_str());
                out
            },
            CaravanError::StateParse { path, source } => {
                let mut out = concat("failed to parse state file ", path.as_str());
                push_str(&mut out, ": ");
                push_str(&mut out, source.as_str());
                out
            },
            CaravanError::GracefulShutdown => String::from_str("graceful shutdown requested"),
        }
    }
}

} // verus!
