//! Resuming an interrupted migration: failure classes, reconciliation of a batch
//! against the destination, and the decision of the next safe step for a batch.

use vstd::prelude::*;

use crate::error::CaravanError;
use crate::models::batch::Batch;
use crate::models::file_entry::FileEntry;
use crate::models::state::{
    file_entry_of, ids_where, planned_of, BatchPhase, BatchState, MigrationState, PlannedBatch,
};
use crate::text::{concat, owned, push_str};

verus! {

/// High-level failure categories for operator messaging and logging.
#[derive(Debug, Clone, Copy, PartialEq, Eq, Structural)]
pub enum FailureClass {
    StateMissing,
    StateCorrupted,
    StateFilesystemConflict,
    CopyBackendFailure,
    VerificationMismatch,
    CapacityExhausted,
    IoError,
    ResumePolicyBlocked,
}

/// The stable identifier of a failure class.
pub open spec fn failure_class_text(class: FailureClass) -> Seq<char> {
    match class {
        FailureClass::StateMissing => "state_missing"@,
        FailureClass::StateCorrupted => "state_corrupted"@,
        FailureClass::StateFilesystemConflict => "state_filesystem_conflict"@,
        FailureClass::CopyBackendFailure => "copy_backend_failure"@,
        FailureClass::VerificationMismatch => "verification_mismatch"@,
        FailureClass::CapacityExhausted => "capacity_exhausted"@,
        FailureClass::IoError => "io_error"@,
        FailureClass::ResumePolicyBlocked => "resume_policy_blocked"@,
    }
}

impl FailureClass {
    /// The stable identifier of this class, as logged and stored in errors.
    pub fn as_str(self) -> (r: &'static str)
        ensures
            r@ == failure_class_text(self),
    {
        match self {
            FailureClass::StateMissing => "state_missing",
            FailureClass::StateCorrupted => "state_corrupted",
            FailureClass::StateFilesystemConflict => "state_filesystem_conflict",
            FailureClass::CopyBackendFailure => "copy_backend_failure",
            FailureClass::VerificationMismatch => "verification_mismatch",
            FailureClass::CapacityExhausted => "capacity_exhausted",
            FailureClass::IoError => "io_error",
            FailureClass::ResumePolicyBlocked => "resume_policy_blocked",
        }
    }
}

/// The operator advice for a failure class.
pub open spec fn recovery_text(class: FailureClass) -> Seq<char> {
    match class {
        FailureClass::StateMissing => "Cannot resume: state file is missing. Start a new run or restore state from backup."@,
        FailureClass::StateCorrupted => "Cannot resume: state file is unreadable or invalid JSON. Repair or restore state before continuing."@,
        FailureClass::StateFilesystemConflict => "Stop: persisted state disagrees with files on disk. Review partial copies or source changes before retrying."@,
        FailureClass::CopyBackendFailure => "Copy step failed. Source data should remain intact; fix the underlying error and retry the batch."@,
        FailureClass::VerificationMismatch => "Verification failed. Do not delete source data until you review mismatches and re-verify."@,
        FailureClass::CapacityExhausted => "Destination ran out of space or margin. Free space or reduce batch size before continuing."@,
        FailureClass::IoError => "An I/O error occurred. Check mounts, permissions, and hardware, then retry."@,
        FailureClass::ResumePolicyBlocked => "Resume blocked by safety policy: enable interactive approval or provide explicit delete approval before destructive steps."@,
    }
}

/// Short, actionable text for operators (logs / stderr).
pub fn recovery_message(class: FailureClass) -> (r: &'static str)
    ensures
        r@ == recovery_text(class),
{
    match class {
        FailureClass::StateMissing => "Cannot resume: state file is missing. Start a new run or restore state from backup.",
        FailureClass::StateCorrupted => "Cannot resume: state file is unreadable or invalid JSON. Repair or restore state before continuing.",
        FailureClass::StateFilesystemConflict => "Stop: persisted state disagrees with files on disk. Review partial copies or source changes before retrying.",
        FailureClass::CopyBackendFailure => "Copy step failed. Source data should remain intact; fix the underlying error and retry the batch.",
        FailureClass::VerificationMismatch => "Verification failed. Do not delete source data until you review mismatches and re-verify.",
        FailureClass::CapacityExhausted => "Destination ran out of space or margin. Free space or reduce batch size before continuing.",
        FailureClass::IoError => "An I/O error occurred. Check mounts, permissions, and hardware, then retry.",
        FailureClass::ResumePolicyBlocked => "Resume blocked by safety policy: enable interactive approval or provide explicit delete approval before destructive steps.",
    }
}

/// The number of batches satisfying `pred`.
pub open spec fn count_where(batches: Seq<BatchState>, pred: spec_fn(BatchState) -> bool) -> nat
    decreases batches.len(),
{
    if batches.len() == 0 {
        0
    } else {
        count_where(batches.drop_last(), pred) + if pred(batches.last()) { 1nat } else { 0nat }
    }
}

/// Every batch is either deleted or not: the two counts add up to the number of batches.
pub proof fn lemma_deleted_counts_partition(batches: Seq<BatchState>)
    ensures
        count_where(batches, |b: BatchState| b.deleted) + count_where(batches, |b: BatchState| !b.deleted)
            == batches.len(),
    decreases batches.len(),
{
    if batches.len() > 0 {
        lemma_deleted_counts_partition(batches.drop_last());
    }
}

/// What a resumed run shows about the state it picked up.
#[derive(Debug, Clone, Copy, PartialEq, Eq)]
pub struct ResumeStateSummary<'a> {
    pub mode: &'a str,
    pub source: &'a str,
    pub destination: &'a str,
    pub total_batches: usize,
    pub completed_batches: usize,
}

fn count_deleted(batches: &Vec<BatchState>, deleted: bool) -> (r: usize)
    ensures
        r == count_where(batches@, |b: BatchState| b.deleted == deleted),
{
    let mut n: usize = 0;
    let mut i: usize = 0;
    while i < batches.len()
        invariant
            i <= batches@.len(),
            n <= i,
            n == count_where(batches@.take(i as int), |b: BatchState| b.deleted == deleted),
        decreases batches.len() - i,
    {
        assert(batches@.take(i + 1 as int).drop_last() =~= batches@.take(i as int));
        if batches[i].deleted == deleted {
            n = n + 1;
        }
        i = i + 1;
    }
    assert(batches@.take(batches@.len() as int) =~= batches@);
    n
}

/// Mode, paths, and how many of the batches are already deleted from the source.
pub fn summarize_resume_state(state: &MigrationState) -> (r: ResumeStateSummary<'_>)
    ensures
        r.mode@ == state.mode@,
        r.source@ == state.source@,
        r.destination@ == state.destination@,
        r.total_batches == state.batches@.len(),
        r.completed_batches == count_where(state.batches@, |b: BatchState| b.deleted),
{
    let completed = count_deleted(&state.batches, true);
    assert(count_where(state.batches@, |b: BatchState| b.deleted == true) == count_where(
        state.batches@,
        |b: BatchState| b.deleted,
    )) by {
        assert((|b: BatchState| b.deleted == true) =~= (|b: BatchState| b.deleted));
    }
    ResumeStateSummary {
        mode: state.mode.as_str(),
        source: state.source.as_str(),
        destination: state.destination.as_str(),
        total_batches: state.batches.len(),
        completed_batches: completed,
    }
}

/// Batch counts of a resumed run.
#[derive(Debug, Clone, Copy, PartialEq, Eq)]
pub struct ResumeExecutionSummary {
    pub total_batches: usize,
    pub completed_batches: usize,
    pub pending_delete_batches: usize,
}

/// How many batches there are, how many are deleted and how many are not.
pub fn summarize_resume_execution(state: &MigrationState) -> (r: ResumeExecutionSummary)
    ensures
        r.total_batches == state.batches@.len(),
        r.completed_batches == count_where(state.batches@, |b: BatchState| b.deleted),
        r.pending_delete_batches == count_where(state.batches@, |b: BatchState| !b.deleted),
{
    let completed = count_deleted(&state.batches, true);
    let pending = count_deleted(&state.batches, false);
    assert((|b: BatchState| b.deleted == true) =~= (|b: BatchState| b.deleted));
    assert((|b: BatchState| b.deleted == false) =~= (|b: BatchState| !b.deleted));
    ResumeExecutionSummary {
        total_batches: state.batches.len(),
        completed_batches: completed,
        pending_delete_batches: pending,
    }
}

/// Result of comparing the batch manifest to the destination tree.
#[derive(Debug, Clone, PartialEq, Eq)]
pub struct ReconciliationResult {
    pub all_destination_files_ready: bool,
    pub missing_in_destination: Vec<String>,
    pub size_mismatches: Vec<String>,
}

/// The findings for one failed batch.
#[derive(Debug, Clone, PartialEq, Eq)]
pub struct FailedBatchInspection {
    pub batch_id: String,
    pub all_destination_files_ready: bool,
    pub missing_in_destination: Vec<String>,
    pub size_mismatches: Vec<String>,
}

/// The findings for every failed batch.
#[derive(Debug, Clone, PartialEq, Eq)]
pub struct FailedBatchInspectionReport {
    pub failed_batch_count: usize,
    pub failed_batches: Vec<FailedBatchInspection>,
}

/// What `{:?}` renders for a list of strings.
pub uninterp spec fn debug_list_text(items: Seq<Seq<char>>) -> Seq<char>;

/// Renders a list of strings with `{:?}` of std (`["a", "b"]`, each item quoted and escaped).
/// The contract names the result; what the rendering looks like is left to std.
#[verifier::external_body]
fn render_debug_list(items: &Vec<String>) -> (r: String)
    ensures
        r@ == debug_list_text(items.deep_view()),
{
    format!("{:?}", items)
}

/// The one-line summary of a reconciliation, from the rendered lists.
pub open spec fn summary_text(missing_rendered: Seq<char>, mismatches_rendered: Seq<char>) -> Seq<char> {
    "missing_in_destination="@ + missing_rendered + "; size_mismatches="@ + mismatches_rendered
}

/// The one-line summary of a reconciliation from its two lists as already rendered.
pub fn format_reconciliation_summary(missing_rendered: &str, mismatches_rendered: &str) -> (r: String)
    ensures
        r@ == summary_text(missing_rendered@, mismatches_rendered@),
{
    let mut out = concat("missing_in_destination=", missing_rendered);
    push_str(&mut out, "; size_mismatches=");
    push_str(&mut out, mismatches_rendered);
    out
}

/// The one-line summary of a reconciliation, with both lists rendered as `{:?}` does.
pub fn reconciliation_summary(recon: &ReconciliationResult) -> (r: String)
    ensures
        r@ == summary_text(
            debug_list_text(recon.missing_in_destination.deep_view()),
            debug_list_text(recon.size_mismatches.deep_view()),
        ),
{
    let missing = render_debug_list(&recon.missing_in_destination);
    let mismatches = render_debug_list(&recon.size_mismatches);
    format_reconciliation_summary(missing.as_str(), mismatches.as_str())
}

/// Paths, among the first `n` files, that the destination does not hold as a regular file
/// (`observed[i]` is the size of the destination file for file `i`, `None` when there is none).
pub open spec fn missing_upto(files: Seq<FileEntry>, observed: Seq<Option<u64>>, n: nat) -> Seq<Seq<char>>
    decreases n,
{
    if n == 0 {
        Seq::empty()
    } else {
        let prev = missing_upto(files, observed, (n - 1) as nat);
        if observed[n - 1] is None {
            prev.push(files[n - 1].relative_path@)
        } else {
            prev
        }
    }
}

/// Paths, among the first `n` files, whose destination file has another size than planned.
pub open spec fn mismatched_upto(files: Seq<FileEntry>, observed: Seq<Option<u64>>, n: nat) -> Seq<Seq<char>>
    decreases n,
{
    if n == 0 {
        Seq::empty()
    } else {
        let prev = mismatched_upto(files, observed, (n - 1) as nat);
        if observed[n - 1] matches Some(len) && len != files[n - 1].size_bytes {
            prev.push(files[n - 1].relative_path@)
        } else {
            prev
        }
    }
}

/// `recon` is the reconciliation of `files` against the destination sizes `observed`.
pub open spec fn reconciles(recon: ReconciliationResult, files: Seq<FileEntry>, observed: Seq<Option<u64>>) -> bool {
    let missing = missing_upto(files, observed, files.len());
    let mismatched = mismatched_upto(files, observed, files.len());
    &&& recon.missing_in_destination.deep_view() == missing
    &&& recon.size_mismatches.deep_view() == mismatched
    &&& recon.all_destination_files_ready == (missing.len() == 0 && mismatched.len() == 0)
}

/// Compares each planned file of `batch` with what the destination holds: `observed[i]` is the
/// size of the regular file at the destination path of file `i`, or `None` when there is none
/// (or it cannot be read). A file is missing, or has a size mismatch, or is ready.
pub fn reconcile_batch_destination(batch: &Batch, observed: &Vec<Option<u64>>) -> (r: ReconciliationResult)
    requires
        observed@.len() == batch.files@.len(),
    ensures
        reconciles(r, batch.files@, observed@),
{
    let mut missing: Vec<String> = Vec::new();
    let mut mismatched: Vec<String> = Vec::new();
    let mut i: usize = 0;
    while i < batch.files.len()
        invariant
            i <= batch.files@.len(),
            observed@.len() == batch.files@.len(),
            missing.deep_view() == missing_upto(batch.files@, observed@, i as nat),
            mismatched.deep_view() == mismatched_upto(batch.files@, observed@, i as nat),
        decreases batch.files.len() - i,
    {
        let entry = &batch.files[i];
        match observed[i] {
            None => {
                missing.push(entry.relative_path.clone());
            },
            Some(len) => {
                if len != entry.size_bytes {
                    mismatched.push(entry.relative_path.clone());
                }
            },
        }
        i = i + 1;
        assert(missing.deep_view() =~= missing_upto(batch.files@, observed@, i as nat));
        assert(mismatched.deep_view() =~= mismatched_upto(batch.files@, observed@, i as nat));
    }
    let ready = missing.len() == 0 && mismatched.len() == 0;
    ReconciliationResult {
        all_destination_files_ready: ready,
        missing_in_destination: missing,
        size_mismatches: mismatched,
    }
}

/// Failed and not deleted: a batch that inspection looks at.
pub open spec fn failed_open(b: BatchState) -> bool {
    b.phase == BatchPhase::Failed && !b.deleted
}

/// The identifiers of the failed batches of `state`, in state order.
pub open spec fn failed_ids(state: MigrationState) -> Seq<Seq<char>> {
    ids_where(state.batches@, |b: BatchState| failed_open(b))
}

/// The message when a failed batch has no manifest entry.
pub open spec fn missing_manifest_text(id: Seq<char>) -> Seq<char> {
    "missing immutable batch manifest for "@ + id + "; cannot inspect failed batch safely"@
}

/// Whether the first `n` listed batches all have a manifest entry.
pub open spec fn manifests_present(planned: Seq<PlannedBatch>, ids: Seq<Seq<char>>, n: int) -> bool {
    forall|k: int| 0 <= k < n ==> (#[trigger] planned_of(planned, ids[k])) is Some
}

/// The outcome of materializing the failed batches of `state` for inspection.
pub open spec fn failed_batches_outcome(state: MigrationState, r: Result<Vec<Batch>, CaravanError>) -> bool {
    let ids = failed_ids(state);
    let planned = state.planned_batches@;
    match r {
        Ok(v) => manifests_present(planned, ids, ids.len() as int) && v@.len() == ids.len() && forall|k: int|
            0 <= k < ids.len() ==> (#[trigger] planned_of(planned, ids[k]))->0.describes(v@[k]),
        Err(e) => exists|k: int|
            0 <= k < ids.len() && manifests_present(planned, ids, k) && (#[trigger] planned_of(
                planned,
                ids[k],
            )) is None && (e matches CaravanError::StateCorrupt(m) && m@ == missing_manifest_text(ids[k])),
    }
}

fn failed_batch_ids(state: &MigrationState) -> (r: Vec<String>)
    ensures
        r.deep_view() == failed_ids(*state),
{
    let mut out: Vec<String> = Vec::new();
    let mut i: usize = 0;
    while i < state.batches.len()
        invariant
            i <= state.batches@.len(),
            out.deep_view() == ids_where(state.batches@.take(i as int), |b: BatchState| failed_open(b)),
        decreases state.batches.len() - i,
    {
        let b = &state.batches[i];
        assert(state.batches@.take(i + 1 as int).drop_last() =~= state.batches@.take(i as int));
        if b.phase == BatchPhase::Failed && !b.deleted {
            out.push(b.batch_id.clone());
        }
        i = i + 1;
        assert(out.deep_view() =~= ids_where(state.batches@.take(i as int), |b: BatchState| failed_open(b)));
    }
    assert(state.batches@.take(state.batches.len() as int) =~= state.batches@);
    out
}

/// Materializes, from the manifest, every failed batch that is not deleted, in state order.
/// Fails on the first one whose manifest entry is missing.
pub fn failed_batches_to_inspect(state: &MigrationState) -> (r: Result<Vec<Batch>, CaravanError>)
    ensures
        failed_batches_outcome(*state, r),
{
    let ids = failed_batch_ids(state);
    let ghost gids = failed_ids(*state);
    let mut out: Vec<Batch> = Vec::new();
    let mut k: usize = 0;
    while k < ids.len()
        invariant
            ids.deep_view() == gids,
            gids == failed_ids(*state),
            k <= gids.len(),
            out@.len() == k,
            manifests_present(state.planned_batches@, gids, k as int),
            forall|j: int|
                0 <= j < k ==> (#[trigger] planned_of(state.planned_batches@, gids[j]))->0.describes(out@[j]),
        decreases ids.len() - k,
    {
        assert(ids[k as int]@ == gids[k as int]);
        match state.materialize_planned_batch(ids[k].as_str()) {
            None => {
                let mut text = owned("missing immutable batch manifest for ");
                push_str(&mut text, ids[k].as_str());
                push_str(&mut text, "; cannot inspect failed batch safely");
                let r: Result<Vec<Batch>, CaravanError> = Err(CaravanError::StateCorrupt(text));
                assert(planned_of(state.planned_batches@, gids[k as int]) is None);
                assert(failed_batches_outcome(*state, r));
                return r;
            },
            Some(b) => {
                out.push(b);
            },
        }
        k = k + 1;
    }
    Ok(out)
}

/// `fb` is the inspection of the manifest batch `p` named `id` against the destination sizes `observed`.
pub open spec fn inspects(fb: FailedBatchInspection, id: Seq<char>, p: PlannedBatch, observed: Seq<Option<u64>>) -> bool {
    let files = p.files@.map_values(|f| file_entry_of(f));
    let missing = missing_upto(files, observed, files.len());
    let mismatched = mismatched_upto(files, observed, files.len());
    &&& fb.batch_id@ == id
    &&& fb.missing_in_destination.deep_view() == missing
    &&& fb.size_mismatches.deep_view() == mismatched
    &&& fb.all_destination_files_ready == (missing.len() == 0 && mismatched.len() == 0)
}

/// Whether `observed` holds, for each failed batch that has a manifest entry, one
/// destination observation per planned file.
pub open spec fn observations_fit(state: MigrationState, observed: Seq<Vec<Option<u64>>>) -> bool {
    let ids = failed_ids(state);
    &&& observed.len() == ids.len()
    &&& forall|k: int|
        0 <= k < ids.len() ==> match #[trigger] planned_of(state.planned_batches@, ids[k]) {
            Some(p) => observed[k]@.len() == p.files@.len(),
            None => true,
        }
}

/// Builds an inspection report for the failed batches without changing the state:
/// `observed[k]` holds the destination sizes of the files of the `k`-th failed batch
/// (see [`reconcile_batch_destination`]).
pub fn inspect_failed_batches(state: &MigrationState, observed: &Vec<Vec<Option<u64>>>) -> (r: Result<
    FailedBatchInspectionReport,
    CaravanError,
>)
    requires
        observations_fit(*state, observed@),
    ensures
        match r {
            Ok(report) => {
                let ids = failed_ids(*state);
                &&& manifests_present(state.planned_batches@, ids, ids.len() as int)
                &&& report.failed_batch_count == ids.len()
                &&& report.failed_batches@.len() == ids.len()
                &&& forall|k: int|
                    0 <= k < ids.len() ==> inspects(
                        #[trigger] report.failed_batches@[k],
                        ids[k],
                        planned_of(state.planned_batches@, ids[k])->0,
                        observed@[k]@,
                    )
            },
            Err(e) => failed_batches_outcome(*state, Err(e)),
        },
{
    let batches = match failed_batches_to_inspect(state) {
        Err(e) => {
            return Err(e);
        },
        Ok(b) => b,
    };
    let ghost ids = failed_ids(*state);
    let mut out: Vec<FailedBatchInspection> = Vec::new();
    let mut k: usize = 0;
    while k < batches.len()
        invariant
            failed_batches_outcome(*state, Ok(batches)),
            ids == failed_ids(*state),
            observations_fit(*state, observed@),
            k <= batches@.len(),
            batches@.len() == ids.len(),
            out@.len() == k,
            forall|j: int|
                0 <= j < k ==> inspects(
                    #[trigger] out@[j],
                    ids[j],
                    planned_of(state.planned_batches@, ids[j])->0,
                    observed@[j]@,
                ),
        decreases batches.len() - k,
    {
        let b = &batches[k];
        let ghost p = planned_of(state.planned_batches@, ids[k as int])->0;
        assert(planned_of(state.planned_batches@, ids[k as int]) is Some);
        assert(p.describes(batches@[k as int]));
        let recon = reconcile_batch_destination(b, &observed[k]);
        let fb = FailedBatchInspection {
            batch_id: b.id.clone(),
            all_destination_files_ready: recon.all_destination_files_ready,
            missing_in_destination: recon.missing_in_destination,
            size_mismatches: recon.size_mismatches,
        };
        assert(inspects(fb, ids[k as int], p, observed@[k as int]@));
        out.push(fb);
        k = k + 1;
    }
    Ok(FailedBatchInspectionReport { failed_batch_count: out.len(), failed_batches: out })
}

/// How a resumed run may act on destructive steps.
#[derive(Debug, Clone, Copy, PartialEq, Eq)]
pub struct ResumeOptions {
    pub interactive: bool,
    /// Scripting escape hatch: explicit operator consent without persisting approval in state yet.
    pub explicit_delete_approval: bool,
}

/// What to do next for one batch, given persisted phase and filesystem reconciliation.
#[derive(Debug, Clone, PartialEq, Eq)]
pub enum ResumeStepPlan {
    CopyBatch,
    VerifyBatch,
    /// Verification passed; operator must approve (interactive or state flag) before delete.
    PendingDeleteApproval,
    DeleteSource,
    /// Delete finished; caller should run snapshot cadence logic if configured.
    PostDeleteSnapshot,
    BatchFullyCompleted,
    ConflictOperatorReview { reason: String },
    BlockedFailedVerification,
}

/// A resume error of class `class` with detail `detail`.
pub open spec fn is_resume_error(e: CaravanError, class: FailureClass, detail: Seq<char>) -> bool {
    e matches CaravanError::Resume { class: c, detail: d } && c@ == failure_class_text(class) && d@ == detail
}

/// The class of a failure to load the state file.
pub open spec fn load_failure_class(e: CaravanError) -> FailureClass {
    if e is StateRead {
        FailureClass::IoError
    } else {
        FailureClass::StateCorrupted
    }
}

fn resume_error(class: FailureClass, detail: String) -> (r: CaravanError)
    ensures
        is_resume_error(r, class, detail@),
{
    CaravanError::Resume { class: owned(class.as_str()), detail }
}

/// Classifies the outcome of loading the state file at `path` for a resume: `loaded` is
/// `None` when no file exists there, else what loading it gave. A missing file is
/// `state_missing`; a read error is `io_error`; any other load error is `state_corrupted`.
pub fn load_state_for_resume(path: &str, loaded: Option<Result<MigrationState, CaravanError>>) -> (r: Result<
    MigrationState,
    CaravanError,
>)
    ensures
        match loaded {
            None => r is Err && is_resume_error(
                r->Err_0,
                FailureClass::StateMissing,
                "state file does not exist: "@ + path@,
            ),
            Some(Ok(s)) => r == Ok::<MigrationState, CaravanError>(s),
            Some(Err(e)) => r is Err && is_resume_error(r->Err_0, load_failure_class(e), e.message()),
        },
{
    match loaded {
        None => Err(resume_error(FailureClass::StateMissing, concat("state file does not exist: ", path))),
        Some(Ok(s)) => Ok(s),
        Some(Err(e)) => {
            let class = match &e {
                CaravanError::StateRead { .. } => FailureClass::IoError,
                _ => FailureClass::StateCorrupted,
            };
            Err(resume_error(class, e.to_string()))
        },
    }
}

/// `r` is an operator review step whose reason is `reason`.
pub open spec fn is_review(r: ResumeStepPlan, reason: Seq<char>) -> bool {
    r matches ResumeStepPlan::ConflictOperatorReview { reason: x } && x@ == reason
}

/// The next safe step for a batch in `bs`, given the reconciliation `recon` whose lists render as
/// `missing` and `mismatches`, and whether a failed batch may be recovered.
pub open spec fn resume_step_is(
    r: ResumeStepPlan,
    bs: BatchState,
    recon: ReconciliationResult,
    allow_failed_recovery: bool,
    missing: Seq<char>,
    mismatches: Seq<char>,
) -> bool {
    let summary = summary_text(missing, mismatches);
    match bs.phase {
        BatchPhase::Failed => if !allow_failed_recovery {
            is_review(r, "batch is marked failed; operator review required ("@ + summary + ")"@)
        } else if recon.all_destination_files_ready {
            r is VerifyBatch
        } else if recon.size_mismatches@.len() > 0 {
            is_review(
                r,
                "failed-batch recovery blocked due to destination size mismatches ("@ + summary + ")"@,
            )
        } else {
            r is CopyBatch
        },
        BatchPhase::Planned => r is CopyBatch,
        BatchPhase::CopyStarted => if recon.all_destination_files_ready {
            r is VerifyBatch
        } else {
            r is CopyBatch
        },
        BatchPhase::CopyCompleted => if recon.all_destination_files_ready {
            r is VerifyBatch
        } else {
            is_review(
                r,
                "state says copy completed but destination is incomplete: missing "@ + missing
                    + ", size mismatches "@ + mismatches,
            )
        },
        BatchPhase::VerifyCompleted => if !bs.verification_passed {
            r is BlockedFailedVerification
        } else if bs.approved_for_delete {
            if bs.deleted {
                r is PostDeleteSnapshot
            } else {
                r is DeleteSource
            }
        } else {
            r is PendingDeleteApproval
        },
        BatchPhase::ApprovedForDelete => if !bs.verification_passed {
            r is BlockedFailedVerification
        } else if bs.deleted {
            r is PostDeleteSnapshot
        } else {
            r is DeleteSource
        },
        BatchPhase::DeleteCompleted => r is PostDeleteSnapshot,
        BatchPhase::SnapshotCompleted => r is BatchFullyCompleted,
    }
}

fn review(reason: String) -> (r: ResumeStepPlan)
    ensures
        is_review(r, reason@),
{
    ResumeStepPlan::ConflictOperatorReview { reason }
}

/// Decides the next safe step for a batch, with the reconciliation lists already rendered
/// (`missing` and `mismatches`). Does not change any state.
pub fn decide_resume_step(
    batch_state: &BatchState,
    recon: &ReconciliationResult,
    allow_failed_recovery: bool,
    missing: &str,
    mismatches: &str,
) -> (r: ResumeStepPlan)
    ensures
        resume_step_is(r, *batch_state, *recon, allow_failed_recovery, missing@, mismatches@),
{
    match batch_state.phase {
        BatchPhase::Failed => {
            if !allow_failed_recovery {
                let mut reason = owned("batch is marked failed; operator review required (");
                let summary = format_reconciliation_summary(missing, mismatches);
                push_str(&mut reason, summary.as_str());
                push_str(&mut reason, ")");
                return review(reason);
            }
            if recon.all_destination_files_ready {
                ResumeStepPlan::VerifyBatch
            } else if recon.size_mismatches.len() > 0 {
                let mut reason = owned("failed-batch recovery blocked due to destination size mismatches (");
                let summary = format_reconciliation_summary(missing, mismatches);
                push_str(&mut reason, summary.as_str());
                push_str(&mut reason, ")");
                review(reason)
            } else {
                ResumeStepPlan::CopyBatch
            }
        },
        BatchPhase::Planned => ResumeStepPlan::CopyBatch,
        BatchPhase::CopyStarted => {
            if recon.all_destination_files_ready {
                ResumeStepPlan::VerifyBatch
            } else {
                ResumeStepPlan::CopyBatch
            }
        },
        BatchPhase::CopyCompleted => {
            if recon.all_destination_files_ready {
                ResumeStepPlan::VerifyBatch
            } else {
                let mut reason = owned("state says copy completed but destination is incomplete: missing ");
                push_str(&mut reason, missing);
                push_str(&mut reason, ", size mismatches ");
                push_str(&mut reason, mismatches);
                review(reason)
            }
        },
        BatchPhase::VerifyCompleted => {
            if !batch_state.verification_passed {
                return ResumeStepPlan::BlockedFailedVerification;
            }
            if batch_state.approved_for_delete {
                if batch_state.deleted {
                    ResumeStepPlan::PostDeleteSnapshot
                } else {
                    ResumeStepPlan::DeleteSource
                }
            } else {
                ResumeStepPlan::PendingDeleteApproval
            }
        },
        BatchPhase::ApprovedForDelete => {
            if !batch_state.verification_passed {
                return ResumeStepPlan::BlockedFailedVerification;
            }
            if batch_state.deleted {
                ResumeStepPlan::PostDeleteSnapshot
            } else {
                ResumeStepPlan::DeleteSource
            }
        },
        BatchPhase::DeleteCompleted => ResumeStepPlan::PostDeleteSnapshot,
        BatchPhase::SnapshotCompleted => ResumeStepPlan::BatchFullyCompleted,
    }
}

/// Decides the next safe step for a batch, where a failed batch may be recovered when
/// `allow_failed_recovery` is set. Does not change any state.
pub fn plan_resume_step_with_recovery(
    batch_state: &BatchState,
    recon: &ReconciliationResult,
    _batch: &Batch,
    allow_failed_recovery: bool,
) -> (r: ResumeStepPlan)
    ensures
        resume_step_is(
            r,
            *batch_state,
            *recon,
            allow_failed_recovery,
            debug_list_text(recon.missing_in_destination.deep_view()),
            debug_list_text(recon.size_mismatches.deep_view()),
        ),
{
    let missing = render_debug_list(&recon.missing_in_destination);
    let mismatches = render_debug_list(&recon.size_mismatches);
    decide_resume_step(batch_state, recon, allow_failed_recovery, missing.as_str(), mismatches.as_str())
}

/// Decides the next safe step for a batch; a failed batch always goes to operator review.
pub fn plan_resume_step(batch_state: &BatchState, recon: &ReconciliationResult, batch: &Batch) -> (r: ResumeStepPlan)
    ensures
        resume_step_is(
            r,
            *batch_state,
            *recon,
            false,
            debug_list_text(recon.missing_in_destination.deep_view()),
            debug_list_text(recon.size_mismatches.deep_view()),
        ),
{
    plan_resume_step_with_recovery(batch_state, recon, batch, false)
}

/// Whether a resumed run may delete the source files of a batch in `bs` under `opts`.
pub open spec fn delete_permitted(bs: BatchState, opts: ResumeOptions) -> bool {
    bs.deleted || (bs.verification_passed && (bs.approved_for_delete || opts.explicit_delete_approval
        || opts.interactive))
}

/// Enforces fail-closed delete on resume: deleting needs a passed verification, and, when the
/// run is not interactive, an approval recorded in the state or given explicitly.
pub fn require_delete_permission_for_resume(batch_state: &BatchState, opts: &ResumeOptions) -> (r: Result<
    (),
    CaravanError,
>)
    ensures
        r is Ok <==> delete_permitted(*batch_state, *opts),
        r is Err ==> !batch_state.verification_passed ==> is_resume_error(
            r->Err_0,
            FailureClass::ResumePolicyBlocked,
            "cannot delete: verification did not pass for this batch"@,
        ),
        r is Err ==> batch_state.verification_passed ==> is_resume_error(
            r->Err_0,
            FailureClass::ResumePolicyBlocked,
            recovery_text(FailureClass::ResumePolicyBlocked),
        ),
{
    if batch_state.deleted {
        return Ok(());
    }
    if !batch_state.verification_passed {
        return Err(resume_error(
            FailureClass::ResumePolicyBlocked,
            owned("cannot delete: verification did not pass for this batch"),
        ));
    }
    if batch_state.approved_for_delete || opts.explicit_delete_approval {
        return Ok(());
    }
    if opts.interactive {
        return Ok(());
    }
    Err(resume_error(
        FailureClass::ResumePolicyBlocked,
        owned(recovery_message(FailureClass::ResumePolicyBlocked)),
    ))
}

/// A failed batch is never resumed without recovery allowed: it always goes to operator review.
pub proof fn lemma_failed_batch_needs_review(
    r: ResumeStepPlan,
    bs: BatchState,
    recon: ReconciliationResult,
    missing: Seq<char>,
    mismatches: Seq<char>,
)
    requires
        resume_step_is(r, bs, recon, false, missing, mismatches),
        bs.phase == BatchPhase::Failed,
    ensures
        r is ConflictOperatorReview,
{
}

/// The next step deletes source files only for a batch whose verification passed, that is not
/// yet deleted, and that is approved for delete (by phase or by flag).
pub proof fn lemma_delete_step_needs_verified_approval(
    r: ResumeStepPlan,
    bs: BatchState,
    recon: ReconciliationResult,
    allow_failed_recovery: bool,
    missing: Seq<char>,
    mismatches: Seq<char>,
)
    requires
        resume_step_is(r, bs, recon, allow_failed_recovery, missing, mismatches),
        r is DeleteSource,
    ensures
        bs.verification_passed,
        !bs.deleted,
        bs.phase == BatchPhase::ApprovedForDelete || (bs.phase == BatchPhase::VerifyCompleted
            && bs.approved_for_delete),
{
}

/// A batch is copied again only while its copy is not known complete: never once the state
/// records a completed copy or anything after it.
pub proof fn lemma_copy_step_only_before_copy_completed(
    r: ResumeStepPlan,
    bs: BatchState,
    recon: ReconciliationResult,
    allow_failed_recovery: bool,
    missing: Seq<char>,
    mismatches: Seq<char>,
)
    requires
        resume_step_is(r, bs, recon, allow_failed_recovery, missing, mismatches),
        r is CopyBatch,
    ensures
        bs.phase == BatchPhase::Planned || bs.phase == BatchPhase::CopyStarted || (bs.phase
            == BatchPhase::Failed && allow_failed_recovery && recon.size_mismatches@.len() == 0),
{
}

/// A verification is resumed only when every planned file is in place at the destination.
pub proof fn lemma_verify_step_needs_ready_destination(
    r: ResumeStepPlan,
    bs: BatchState,
    recon: ReconciliationResult,
    allow_failed_recovery: bool,
    missing: Seq<char>,
    mismatches: Seq<char>,
)
    requires
        resume_step_is(r, bs, recon, allow_failed_recovery, missing, mismatches),
        r is VerifyBatch,
    ensures
        recon.all_destination_files_ready,
{
}

/// A batch whose state is still before a completed verification (planned, copying, copied, or
/// failed) never resumes into the delete path: no delete approval, no delete, no post-delete
/// snapshot and no completion.
pub proof fn lemma_no_delete_path_before_verification(
    r: ResumeStepPlan,
    bs: BatchState,
    recon: ReconciliationResult,
    allow_failed_recovery: bool,
    missing: Seq<char>,
    mismatches: Seq<char>,
)
    requires
        resume_step_is(r, bs, recon, allow_failed_recovery, missing, mismatches),
        bs.phase == BatchPhase::Planned || bs.phase == BatchPhase::CopyStarted || bs.phase
            == BatchPhase::CopyCompleted || bs.phase == BatchPhase::Failed,
    ensures
        !(r is PendingDeleteApproval),
        !(r is DeleteSource),
        !(r is PostDeleteSnapshot),
        !(r is BatchFullyCompleted),
{
}

/// A batch whose copy was started or completed (or a failed batch that may be recovered), and
/// whose planned files are all in place at the destination, resumes by verifying it.
pub proof fn lemma_copied_batch_resumes_with_verify(
    r: ResumeStepPlan,
    bs: BatchState,
    recon: ReconciliationResult,
    allow_failed_recovery: bool,
    missing: Seq<char>,
    mismatches: Seq<char>,
)
    requires
        resume_step_is(r, bs, recon, allow_failed_recovery, missing, mismatches),
        bs.phase == BatchPhase::CopyStarted || bs.phase == BatchPhase::CopyCompleted || (bs.phase
            == BatchPhase::Failed && allow_failed_recovery),
        recon.all_destination_files_ready,
    ensures
        r is VerifyBatch,
{
}

/// A batch is resumed as complete exactly when its snapshot is recorded, and a batch that was
/// only planned is copied.
pub proof fn lemma_completion_and_fresh_copy(
    r: ResumeStepPlan,
    bs: BatchState,
    recon: ReconciliationResult,
    allow_failed_recovery: bool,
    missing: Seq<char>,
    mismatches: Seq<char>,
)
    requires
        resume_step_is(r, bs, recon, allow_failed_recovery, missing, mismatches),
    ensures
        r is BatchFullyCompleted <==> bs.phase == BatchPhase::SnapshotCompleted,
        bs.phase == BatchPhase::Planned ==> r is CopyBatch,
        r is PostDeleteSnapshot ==> bs.phase == BatchPhase::DeleteCompleted || (bs.deleted
            && bs.verification_passed),
{
}

/// A batch waits for delete approval only after a passed verification that is not yet approved.
pub proof fn lemma_pending_approval_after_passed_verification(
    r: ResumeStepPlan,
    bs: BatchState,
    recon: ReconciliationResult,
    allow_failed_recovery: bool,
    missing: Seq<char>,
    mismatches: Seq<char>,
)
    requires
        resume_step_is(r, bs, recon, allow_failed_recovery, missing, mismatches),
        r is PendingDeleteApproval,
    ensures
        bs.phase == BatchPhase::VerifyCompleted,
        bs.verification_passed,
        !bs.approved_for_delete,
{
}

/// Deleting on resume is permitted only for a batch whose verification passed (or that is
/// already deleted), and never in a non-interactive run without a recorded or explicit approval.
pub proof fn lemma_resume_delete_fail_closed(bs: BatchState, opts: ResumeOptions)
    ensures
        delete_permitted(bs, opts) ==> bs.deleted || bs.verification_passed,
        !bs.deleted && !opts.interactive && !opts.explicit_delete_approval && !bs.approved_for_delete
            ==> !delete_permitted(bs, opts),
{
}

} // verus!
