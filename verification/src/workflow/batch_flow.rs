//! What each batch needs next in a transfer or resume run, and how its recorded state changes
//! around a copy, a verification or a conflict.

use vstd::prelude::*;

use crate::cleanup::is_entry;
use crate::clock::now_unix_secs;
use crate::config::{ConflictPolicy, TransferConfig};
use crate::conflict::{all_hits, dest_path, dir_hits, group_key, is_hit, ConflictReport, ListedEntry};
use crate::error::CaravanError;
use crate::migration_registry::MigrationStatus;
use crate::models::batch::Batch;
use crate::models::file_entry::FileEntry;
use crate::models::state::{
    batch_of, planned_of, same_but_batches, same_but_batches_and_journal, upserted_batches, BatchPhase,
    BatchState, JournalEntry, MigrationPhase, MigrationState,
};
use crate::paths::{components, join, join_paths, same_path};
use crate::plan::batching::sum_sizes;
use crate::resume::ResumeStepPlan;
use crate::text::{decimal, owned, push_decimal_str, push_str};
use crate::workflow::setup::{is_planned_state, planned_batch_state};

verus! {

/// The conflict policy of a transfer run: `--skip-conflicts` means skipping file by file.
pub fn effective_conflict_policy(config: &TransferConfig) -> (r: ConflictPolicy)
    ensures
        r == if config.skip_conflicts {
            ConflictPolicy::SkipFile
        } else {
            config.conflict_policy
        },
{
    if config.skip_conflicts {
        ConflictPolicy::SkipFile
    } else {
        config.conflict_policy
    }
}

/// The conflict policy of a resume run: recovering failed batches means skipping file by file.
pub fn effective_conflict_policy_for_resume(config: &TransferConfig) -> (r: ConflictPolicy)
    ensures
        r == if config.recover_failed {
            ConflictPolicy::SkipFile
        } else {
            config.conflict_policy
        },
{
    if config.recover_failed {
        ConflictPolicy::SkipFile
    } else {
        config.conflict_policy
    }
}

/// Whether the destination path of `f` under `dest_root` is one of the conflicting paths
/// (compared as paths, component by component).
pub open spec fn conflicts_with(f: FileEntry, dest_root: Seq<char>, existing: Seq<Seq<char>>) -> bool {
    exists|k: int|
        0 <= k < existing.len() && components(#[trigger] existing[k]) == components(join(dest_root, f.relative_path@))
}

/// The files of `files` that do not conflict, in order.
pub open spec fn kept_files(files: Seq<FileEntry>, dest_root: Seq<char>, existing: Seq<Seq<char>>) -> Seq<FileEntry>
    decreases files.len(),
{
    if files.len() == 0 {
        Seq::empty()
    } else {
        let prev = kept_files(files.drop_last(), dest_root, existing);
        if conflicts_with(files.last(), dest_root, existing) {
            prev
        } else {
            prev.push(files.last())
        }
    }
}

proof fn lemma_kept_sum(files: Seq<FileEntry>, dest_root: Seq<char>, existing: Seq<Seq<char>>)
    ensures
        sum_sizes(kept_files(files, dest_root, existing)) <= sum_sizes(files),
    decreases files.len(),
{
    if files.len() > 0 {
        lemma_kept_sum(files.drop_last(), dest_root, existing);
        let prev = kept_files(files.drop_last(), dest_root, existing);
        assert(prev.push(files.last()).drop_last() =~= prev);
    }
}

fn conflicts_exec(f: &FileEntry, dest_root: &str, existing: &Vec<String>) -> (r: bool)
    ensures
        r == conflicts_with(*f, dest_root@, existing.deep_view()),
{
    let dest_path = join_paths(dest_root, f.relative_path.as_str());
    let mut k: usize = 0;
    while k < existing.len()
        invariant
            k <= existing@.len(),
            dest_path@ == join(dest_root@, f.relative_path@),
            forall|j: int|
                0 <= j < k ==> components(#[trigger] existing.deep_view()[j]) != components(dest_path@),
        decreases existing.len() - k,
    {
        if same_path(existing[k].as_str(), dest_path.as_str()) {
            assert(components(existing.deep_view()[k as int]) == components(dest_path@));
            return true;
        }
        k = k + 1;
    }
    false
}

proof fn lemma_kept_not_conflicting(files: Seq<FileEntry>, dest_root: Seq<char>, existing: Seq<Seq<char>>)
    ensures
        forall|j: int|
            0 <= j < kept_files(files, dest_root, existing).len() ==> !conflicts_with(
                #[trigger] kept_files(files, dest_root, existing)[j],
                dest_root,
                existing,
            ),
    decreases files.len(),
{
    if files.len() > 0 {
        lemma_kept_not_conflicting(files.drop_last(), dest_root, existing);
        let prev = kept_files(files.drop_last(), dest_root, existing);
        let cur = kept_files(files, dest_root, existing);
        assert forall|j: int| 0 <= j < cur.len() implies !conflicts_with(#[trigger] cur[j], dest_root, existing) by {
            if j < prev.len() {
                assert(cur[j] == prev[j]);
            }
        }
    }
}

proof fn lemma_hit_in_dir_hits(
    files: Seq<FileEntry>,
    root: Seq<char>,
    key: Seq<crate::paths::Comp>,
    entries: Seq<ListedEntry>,
    n: int,
    k: int,
)
    requires
        0 <= k < n <= files.len(),
        is_hit(files, root, key, entries, k),
    ensures
        dir_hits(files, root, key, entries, n).contains(dest_path(root, files[k])),
    decreases n,
{
    let prev = dir_hits(files, root, key, entries, n - 1);
    if k == n - 1 {
        assert(dir_hits(files, root, key, entries, n)[prev.len() as int] == dest_path(root, files[k]));
    } else {
        lemma_hit_in_dir_hits(files, root, key, entries, n - 1, k);
        let t = choose|t: int| 0 <= t < prev.len() && prev[t] == dest_path(root, files[k]);
        assert(dir_hits(files, root, key, entries, n)[t] == dest_path(root, files[k]));
    }
}

proof fn lemma_hit_in_all_hits(
    files: Seq<FileEntry>,
    root: Seq<char>,
    groups: Seq<usize>,
    listings: Seq<Option<Vec<ListedEntry>>>,
    m: int,
    i: int,
    k: int,
)
    requires
        0 <= i < m <= listings.len(),
        listings[i] is Some,
        0 <= k < files.len(),
        is_hit(files, root, group_key(files, root, groups, i), listings[i]->0@, k),
    ensures
        all_hits(files, root, groups, listings, m).contains(dest_path(root, files[k])),
    decreases m,
{
    let prev = all_hits(files, root, groups, listings, m - 1);
    let target = dest_path(root, files[k]);
    if i == m - 1 {
        let es = listings[i]->0;
        let here = dir_hits(files, root, group_key(files, root, groups, i), es@, files.len() as int);
        lemma_hit_in_dir_hits(files, root, group_key(files, root, groups, i), es@, files.len() as int, k);
        let t = choose|t: int| 0 <= t < here.len() && here[t] == target;
        assert(all_hits(files, root, groups, listings, m) == prev + here);
        assert((prev + here)[prev.len() + t] == target);
    } else {
        lemma_hit_in_all_hits(files, root, groups, listings, m - 1, i, k);
        let t = choose|t: int| 0 <= t < prev.len() && prev[t] == target;
        assert(all_hits(files, root, groups, listings, m)[t] == target);
    }
}

/// A file whose destination entry already exists is never handed to the copier: its path is
/// among the conflicts found (so the batch is not copied whole), and no file kept for a partial
/// copy lands on the same destination path.
pub proof fn lemma_existing_destinations_never_copied(
    files: Seq<FileEntry>,
    root: Seq<char>,
    groups: Seq<usize>,
    listings: Seq<Option<Vec<ListedEntry>>>,
    i: int,
    k: int,
)
    requires
        listings.len() == groups.len(),
        0 <= i < groups.len(),
        listings[i] is Some,
        0 <= k < files.len(),
        is_hit(files, root, group_key(files, root, groups, i), listings[i]->0@, k),
    ensures
        ({
            let hits = all_hits(files, root, groups, listings, groups.len() as int);
            let kept = kept_files(files, root, hits);
            &&& hits.len() > 0
            &&& conflicts_with(files[k], root, hits)
            &&& forall|j: int|
                0 <= j < kept.len() ==> components(dest_path(root, #[trigger] kept[j])) != components(
                    dest_path(root, files[k]),
                )
        }),
{
    let hits = all_hits(files, root, groups, listings, groups.len() as int);
    let target = dest_path(root, files[k]);
    lemma_hit_in_all_hits(files, root, groups, listings, groups.len() as int, i, k);
    let t = choose|t: int| 0 <= t < hits.len() && hits[t] == target;
    assert(components(hits[t]) == components(join(root, files[k].relative_path@)));
    lemma_kept_not_conflicting(files, root, hits);
    let kept = kept_files(files, root, hits);
    assert forall|j: int| 0 <= j < kept.len() implies components(dest_path(root, #[trigger] kept[j]))
        != components(target) by {
        if components(dest_path(root, kept[j])) == components(target) {
            assert(components(hits[t]) == components(join(root, kept[j].relative_path@)));
            assert(conflicts_with(kept[j], root, hits));
        }
    }
}

/// The part of `batch` that does not conflict at the destination: the same identifier, the
/// files whose destination path is not among the report's existing files, and their count and
/// total size.
pub fn non_conflicting_subset_batch(batch: &Batch, destination_root: &str, report: &ConflictReport) -> (r: Batch)
    requires
        sum_sizes(batch.files@) <= u64::MAX,
    ensures
        r.id == batch.id,
        r.files@ == kept_files(batch.files@, destination_root@, report.existing_files.deep_view()),
        r.file_count == r.files@.len(),
        r.total_bytes == sum_sizes(r.files@),
{
    let ghost existing = report.existing_files.deep_view();
    let mut files: Vec<FileEntry> = Vec::new();
    let mut total: u64 = 0;
    let mut i: usize = 0;
    while i < batch.files.len()
        invariant
            i <= batch.files@.len(),
            existing == report.existing_files.deep_view(),
            sum_sizes(batch.files@) <= u64::MAX,
            files@ == kept_files(batch.files@.take(i as int), destination_root@, existing),
            total == sum_sizes(files@),
        decreases batch.files.len() - i,
    {
        assert(batch.files@.take(i + 1 as int).drop_last() =~= batch.files@.take(i as int));
        let f = &batch.files[i];
        if !conflicts_exec(f, destination_root, &report.existing_files) {
            proof {
                lemma_kept_sum(batch.files@.take(i + 1 as int), destination_root@, existing);
                assert(files@.push(*f).drop_last() =~= files@);
                crate::plan::batching::lemma_sum_sizes_append(batch.files@.take(i + 1 as int), batch.files@.skip(i + 1 as int));
                assert(batch.files@.take(i + 1 as int) + batch.files@.skip(i + 1 as int) =~= batch.files@);
            }
            files.push(f.clone());
            total = total + f.size_bytes;
        }
        i = i + 1;
    }
    assert(batch.files@.take(batch.files@.len() as int) =~= batch.files@);
    Batch { id: batch.id.clone(), file_count: files.len(), total_bytes: total, files }
}

/// The batch state after a copy skipped for naming conflicts.
pub open spec fn conflict_failed_state(bs: BatchState) -> BatchState {
    BatchState { phase: BatchPhase::Failed, verification_passed: false, ..bs }
}

/// The journal context of a copy stopped by naming conflicts.
pub open spec fn conflict_context_text(report: ConflictReport, copied: usize) -> Seq<char> {
    "naming_conflicts="@ + decimal(report.total_conflicts as nat) + " size_mismatches="@ + decimal(
        report.size_mismatches@.len(),
    ) + " copied_non_conflicting_files="@ + decimal(copied as nat) + " skipped_conflicting_files="@
        + decimal(report.total_conflicts as nat)
}

fn conflict_context(report: &ConflictReport, copied: usize) -> (r: String)
    ensures
        r@ == conflict_context_text(*report, copied),
{
    let mut m = owned("naming_conflicts=");
    push_decimal_str(&mut m, report.total_conflicts as u64);
    push_str(&mut m, " size_mismatches=");
    push_decimal_str(&mut m, report.size_mismatches.len() as u64);
    push_str(&mut m, " copied_non_conflicting_files=");
    push_decimal_str(&mut m, copied as u64);
    push_str(&mut m, " skipped_conflicting_files=");
    push_decimal_str(&mut m, report.total_conflicts as u64);
    m
}

/// Marks a batch failed for naming conflicts (unverified) and journals why; a batch without a
/// recorded state starts from a planned one.
pub fn mark_batch_failed_for_conflicts(
    batch: &Batch,
    state: &mut MigrationState,
    conflict_report: &ConflictReport,
    copied_non_conflicting_files: usize,
)
    ensures
        exists|x: BatchState|
            final(state).batches@ == #[trigger] upserted_batches(old(state).batches@, x) && match batch_of(
                old(state).batches@,
                batch.id@,
            ) {
                Some(bs) => x == conflict_failed_state(bs),
                None => x.batch_id@ == batch.id@ && x.phase == BatchPhase::Failed && !x.verification_passed
                    && !x.approved_for_delete && !x.deleted,
            },
        final(state).journal@.len() == old(state).journal@.len() + 1,
        final(state).journal@.drop_last() == old(state).journal@,
        is_entry(
            final(state).journal@.last(),
            "copy_failed_conflict"@,
            batch.id@,
            conflict_context_text(*conflict_report, copied_non_conflicting_files),
        ),
        same_but_batches_and_journal(*final(state), *old(state)),
{
    let current = match state.batch(batch.id.as_str()) {
        Some(b) => b.clone(),
        None => planned_batch_state(batch.id.as_str()),
    };
    let failed = BatchState { phase: BatchPhase::Failed, verification_passed: false, ..current };
    let ghost before = *state;
    state.upsert_batch(failed);
    assert(state.batches@ == upserted_batches(before.batches@, failed));
    let ctx = conflict_context(conflict_report, copied_non_conflicting_files);
    state.journal.push(JournalEntry {
        event: owned("copy_failed_conflict"),
        batch_id: batch.id.clone(),
        timestamp_unix_secs: now_unix_secs(),
        context: ctx,
    });
    assert(state.journal@.drop_last() =~= before.journal@);
}

pub open spec fn conflict_state_missing_text(id: Seq<char>) -> Seq<char> {
    "batch "@ + id + " disappeared from state during conflict handling"@
}

/// In a resume run: marks a batch failed for naming conflicts and journals why; the batch
/// must have a recorded state.
pub fn mark_resume_batch_failed_for_conflicts(
    batch: &Batch,
    state: &mut MigrationState,
    conflict_report: &ConflictReport,
    copied_non_conflicting_files: usize,
) -> (r: Result<(), CaravanError>)
    ensures
        match batch_of(old(state).batches@, batch.id@) {
            None => r is Err && (r->Err_0 matches CaravanError::StateCorrupt(m) && m@ == conflict_state_missing_text(
                batch.id@,
            )) && *final(state) == *old(state),
            Some(bs) => {
                &&& r is Ok
                &&& final(state).batches@ == upserted_batches(old(state).batches@, conflict_failed_state(bs))
                &&& final(state).journal@.drop_last() == old(state).journal@
                &&& final(state).journal@.len() == old(state).journal@.len() + 1
                &&& is_entry(
                    final(state).journal@.last(),
                    "copy_failed_conflict"@,
                    batch.id@,
                    conflict_context_text(*conflict_report, copied_non_conflicting_files),
                )
                &&& same_but_batches_and_journal(*final(state), *old(state))
            },
        },
{
    let current = match state.batch(batch.id.as_str()) {
        Some(b) => b.clone(),
        None => {
            let mut m = owned("batch ");
            push_str(&mut m, batch.id.as_str());
            push_str(&mut m, " disappeared from state during conflict handling");
            return Err(CaravanError::StateCorrupt(m));
        },
    };
    let failed = BatchState { phase: BatchPhase::Failed, verification_passed: false, ..current };
    let ghost before = *state;
    state.upsert_batch(failed);
    let ctx = conflict_context(conflict_report, copied_non_conflicting_files);
    state.journal.push(JournalEntry {
        event: owned("copy_failed_conflict"),
        batch_id: batch.id.clone(),
        timestamp_unix_secs: now_unix_secs(),
        context: ctx,
    });
    assert(state.journal@.drop_last() =~= before.journal@);
    Ok(())
}

pub open spec fn conflict_review_text(id: Seq<char>, report: ConflictReport) -> Seq<char> {
    "batch "@ + id + " requires operator review before continuing: naming conflicts="@ + decimal(
        report.total_conflicts as nat,
    ) + " size_mismatches="@ + decimal(report.size_mismatches@.len())
}

/// The error that stops a resume at a batch with naming conflicts.
pub fn conflict_review_error(batch_id: &str, report: &ConflictReport) -> (r: CaravanError)
    ensures
        r matches CaravanError::PolicyBlocked(m) && m@ == conflict_review_text(batch_id@, *report),
{
    let mut m = owned("batch ");
    push_str(&mut m, batch_id);
    push_str(&mut m, " requires operator review before continuing: naming conflicts=");
    push_decimal_str(&mut m, report.total_conflicts as u64);
    push_str(&mut m, " size_mismatches=");
    push_decimal_str(&mut m, report.size_mismatches.len() as u64);
    CaravanError::PolicyBlocked(m)
}

/// In a transfer run, a batch is checked for naming conflicts before its copy unless its copy
/// was only started.
pub fn requires_conflict_check(phase: BatchPhase) -> (r: bool)
    ensures
        r == (phase != BatchPhase::CopyStarted),
{
    match phase {
        BatchPhase::CopyStarted => false,
        _ => true,
    }
}

/// How to copy a batch, given the naming conflicts found for it.
#[derive(Debug, Clone, PartialEq, Eq)]
pub enum CopyDecision {
    /// No conflict: copy the whole batch.
    CopyAll,
    /// Copy nothing and mark the batch failed for review.
    SkipForConflicts,
    /// Copy only these files, then mark the batch failed for review.
    CopySubset(Batch),
}

/// Routes a batch with conflicts by policy: `SkipBatch` copies nothing; `SkipFile` copies the
/// non-conflicting files, or nothing when none is left.
pub fn decide_batch_copy(batch: &Batch, destination_root: &str, report: &ConflictReport, policy: ConflictPolicy) -> (r: CopyDecision)
    requires
        sum_sizes(batch.files@) <= u64::MAX,
    ensures
        !report.has_conflicts ==> r is CopyAll,
        report.has_conflicts && policy == ConflictPolicy::SkipBatch ==> r is SkipForConflicts,
        report.has_conflicts && policy == ConflictPolicy::SkipFile ==> {
            let kept = kept_files(batch.files@, destination_root@, report.existing_files.deep_view());
            &&& kept.len() == 0 ==> r is SkipForConflicts
            &&& kept.len() > 0 ==> (r matches CopyDecision::CopySubset(s) && s.id == batch.id && s.files@ == kept
                && s.file_count == kept.len() && s.total_bytes == sum_sizes(kept))
        },
{
    if !report.has_conflicts {
        return CopyDecision::CopyAll;
    }
    match policy {
        ConflictPolicy::SkipBatch => CopyDecision::SkipForConflicts,
        ConflictPolicy::SkipFile => {
            let subset = non_conflicting_subset_batch(batch, destination_root, report);
            if subset.files.len() == 0 {
                CopyDecision::SkipForConflicts
            } else {
                CopyDecision::CopySubset(subset)
            }
        },
    }
}

/// The batch state once a copy has started.
pub open spec fn copy_started_state(bs: BatchState) -> BatchState {
    BatchState { phase: BatchPhase::CopyStarted, ..bs }
}

/// The batch state once a copy has completed.
pub open spec fn copy_completed_state(bs: BatchState, reset_verification: bool) -> BatchState {
    BatchState {
        phase: BatchPhase::CopyCompleted,
        verification_passed: if reset_verification {
            false
        } else {
            bs.verification_passed
        },
        ..bs
    }
}

/// Records that the copy of batch `batch_id` starts, and returns its state; `None`, with the
/// state unchanged, when the batch has no recorded state.
pub fn mark_copy_started(state: &mut MigrationState, batch_id: &str) -> (r: Option<BatchState>)
    ensures
        match batch_of(old(state).batches@, batch_id@) {
            None => r is None && *final(state) == *old(state),
            Some(bs) => r == Some(copy_started_state(bs)) && final(state).batches@ == upserted_batches(
                old(state).batches@,
                copy_started_state(bs),
            ) && same_but_batches(*final(state), *old(state)),
        },
{
    let current = match state.batch(batch_id) {
        Some(b) => b.clone(),
        None => {
            return None;
        },
    };
    let started = BatchState { phase: BatchPhase::CopyStarted, ..current };
    state.upsert_batch(started.clone());
    Some(started)
}

/// Records that the copy of a batch (in the state `started`) completed, resetting its
/// verification when asked.
pub fn mark_copy_completed(state: &mut MigrationState, started: BatchState, reset_verification_passed: bool)
    ensures
        final(state).batches@ == upserted_batches(
            old(state).batches@,
            copy_completed_state(started, reset_verification_passed),
        ),
        same_but_batches(*final(state), *old(state)),
{
    let mut done = started;
    done.phase = BatchPhase::CopyCompleted;
    if reset_verification_passed {
        done.verification_passed = false;
    }
    state.upsert_batch(done);
}

/// The batch state once a verification has finished.
pub open spec fn verified_state(bs: BatchState, passed: bool) -> BatchState {
    BatchState { phase: BatchPhase::VerifyCompleted, verification_passed: passed, ..bs }
}

/// Records the outcome of verifying batch `batch_id`, and returns its new state; `None`, with
/// the state unchanged, when the batch has no recorded state.
pub fn record_verification_result(state: &mut MigrationState, batch_id: &str, passed: bool) -> (r: Option<BatchState>)
    ensures
        match batch_of(old(state).batches@, batch_id@) {
            None => r is None && *final(state) == *old(state),
            Some(bs) => r == Some(verified_state(bs, passed)) && final(state).batches@ == upserted_batches(
                old(state).batches@,
                verified_state(bs, passed),
            ) && same_but_batches(*final(state), *old(state)),
        },
{
    let current = match state.batch(batch_id) {
        Some(b) => b.clone(),
        None => {
            return None;
        },
    };
    let verified = BatchState { phase: BatchPhase::VerifyCompleted, verification_passed: passed, ..current };
    state.upsert_batch(verified.clone());
    Some(verified)
}

/// Recorded as copied (or later).
pub open spec fn copied_phase(phase: BatchPhase) -> bool {
    phase == BatchPhase::CopyCompleted || phase == BatchPhase::VerifyCompleted || phase
        == BatchPhase::ApprovedForDelete || phase == BatchPhase::DeleteCompleted || phase
        == BatchPhase::SnapshotCompleted
}

/// What the copy phase does with a batch.
#[derive(Debug, Clone, Copy, PartialEq, Eq, Structural)]
pub enum CopyPhaseStep {
    /// Already deleted from the source: counted as processed, not copied.
    SkipCompleted,
    /// Recorded as copied and the destination holds all its files: not copied again.
    SkipAlreadyCopied,
    /// Copy it.
    Copy,
}

/// Whether the copy phase must compare a batch with the destination before deciding.
pub fn copy_phase_needs_reconciliation(existing: Option<&BatchState>) -> (r: bool)
    ensures
        r == (existing matches Some(b) && !b.deleted && copied_phase(b.phase)),
{
    match existing {
        Some(b) => !b.deleted && (b.phase == BatchPhase::CopyCompleted || b.phase == BatchPhase::VerifyCompleted
            || b.phase == BatchPhase::ApprovedForDelete || b.phase == BatchPhase::DeleteCompleted
            || b.phase == BatchPhase::SnapshotCompleted),
        None => false,
    }
}

/// The copy phase's step for a batch, given its recorded state and (for a batch recorded as
/// copied) whether the destination holds all its files.
pub fn copy_phase_step(existing: Option<&BatchState>, destination_ready: bool) -> (r: CopyPhaseStep)
    ensures
        r == match existing {
            None => CopyPhaseStep::Copy,
            Some(b) => if b.deleted {
                CopyPhaseStep::SkipCompleted
            } else if copied_phase(b.phase) && destination_ready {
                CopyPhaseStep::SkipAlreadyCopied
            } else {
                CopyPhaseStep::Copy
            },
        },
{
    match existing {
        None => CopyPhaseStep::Copy,
        Some(b) => {
            if b.deleted {
                CopyPhaseStep::SkipCompleted
            } else if copy_phase_needs_reconciliation(existing) && destination_ready {
                CopyPhaseStep::SkipAlreadyCopied
            } else {
                CopyPhaseStep::Copy
            }
        },
    }
}

/// What the verify phase does with a batch.
#[derive(Debug, Clone, Copy, PartialEq, Eq, Structural)]
pub enum VerifyPhaseStep {
    /// Already deleted: skipped, not counted.
    SkipDeleted,
    /// Failed: left for operator review, not counted.
    SkipFailed,
    /// Already verified: counted as processed.
    SkipVerified,
    /// Verify it (counted as processed).
    Verify,
}

/// Verified (or later) with a passed verification.
pub open spec fn already_verified(b: BatchState) -> bool {
    b.verification_passed && (b.phase == BatchPhase::VerifyCompleted || b.phase == BatchPhase::ApprovedForDelete
        || b.phase == BatchPhase::DeleteCompleted || b.phase == BatchPhase::SnapshotCompleted)
}

/// The verify phase's step for a batch, given its recorded state.
pub fn verify_phase_step(existing: Option<&BatchState>) -> (r: VerifyPhaseStep)
    ensures
        r == match existing {
            None => VerifyPhaseStep::Verify,
            Some(b) => if b.deleted {
                VerifyPhaseStep::SkipDeleted
            } else if b.phase == BatchPhase::Failed {
                VerifyPhaseStep::SkipFailed
            } else if already_verified(*b) {
                VerifyPhaseStep::SkipVerified
            } else {
                VerifyPhaseStep::Verify
            },
        },
{
    match existing {
        None => VerifyPhaseStep::Verify,
        Some(b) => {
            if b.deleted {
                VerifyPhaseStep::SkipDeleted
            } else if b.phase == BatchPhase::Failed {
                VerifyPhaseStep::SkipFailed
            } else if b.verification_passed && (b.phase == BatchPhase::VerifyCompleted || b.phase
                == BatchPhase::ApprovedForDelete || b.phase == BatchPhase::DeleteCompleted || b.phase
                == BatchPhase::SnapshotCompleted) {
                VerifyPhaseStep::SkipVerified
            } else {
                VerifyPhaseStep::Verify
            }
        },
    }
}

/// Whether a copy-phase step counts as a processed batch: only a batch already deleted from
/// the source does (a copied batch is counted by the verify phase).
pub fn copy_step_counts(step: CopyPhaseStep) -> (r: bool)
    ensures
        r == (step == CopyPhaseStep::SkipCompleted),
{
    match step {
        CopyPhaseStep::SkipCompleted => true,
        _ => false,
    }
}

/// Whether batch `batch_id` still has source files to delete: it has a recorded state that
/// is not deleted. Unknown and deleted batches are skipped by the deletion step.
pub fn awaits_deletion(state: &MigrationState, batch_id: &str) -> (r: bool)
    ensures
        r == (batch_of(state.batches@, batch_id@) matches Some(b) && !b.deleted),
{
    match state.batch(batch_id) {
        Some(b) => !b.deleted,
        None => false,
    }
}

/// Whether a verify-phase step counts as a processed batch.
pub fn verify_step_counts(step: VerifyPhaseStep) -> (r: bool)
    ensures
        r == (step == VerifyPhaseStep::SkipVerified || step == VerifyPhaseStep::Verify),
{
    match step {
        VerifyPhaseStep::SkipVerified => true,
        VerifyPhaseStep::Verify => true,
        _ => false,
    }
}

/// A failed batch is never verified by the verify phase, nor a deleted one.
pub proof fn lemma_verify_phase_skips_failed(b: BatchState)
    requires
        b.deleted || b.phase == BatchPhase::Failed,
    ensures
        (if b.deleted {
            VerifyPhaseStep::SkipDeleted
        } else if b.phase == BatchPhase::Failed {
            VerifyPhaseStep::SkipFailed
        } else if already_verified(b) {
            VerifyPhaseStep::SkipVerified
        } else {
            VerifyPhaseStep::Verify
        }) != VerifyPhaseStep::Verify,
{
}

/// What a resume run does for a batch after planning its step.
#[derive(Debug, Clone, Copy, PartialEq, Eq, Structural)]
pub enum ResumeAction {
    /// Nothing left to do for this batch.
    Skip,
    /// Verified: left for the deletion stage.
    ContinueToDeletion,
    /// Verify the batch.
    Verify,
    /// Copy the batch, then verify it.
    CopyThenVerify,
}

pub open spec fn review_required_text(id: Seq<char>, reason: Seq<char>) -> Seq<char> {
    "batch "@ + id + " requires operator review before continuing: "@ + reason
}

pub open spec fn verification_review_text(id: Seq<char>) -> Seq<char> {
    "batch "@ + id + " failed verification and requires operator review before continuing"@
}

/// The action for a planned resume step: reviews and blocked verifications stop the run.
pub fn resume_step_action(step: &ResumeStepPlan, batch_id: &str) -> (r: Result<ResumeAction, CaravanError>)
    ensures
        match step {
            ResumeStepPlan::BatchFullyCompleted => r == Ok::<ResumeAction, CaravanError>(ResumeAction::Skip),
            ResumeStepPlan::PostDeleteSnapshot => r == Ok::<ResumeAction, CaravanError>(ResumeAction::Skip),
            ResumeStepPlan::ConflictOperatorReview { reason } => r is Err && (r->Err_0 matches CaravanError::PolicyBlocked(
                m,
            ) && m@ == review_required_text(batch_id@, reason@)),
            ResumeStepPlan::BlockedFailedVerification => r is Err && (r->Err_0 matches CaravanError::PolicyBlocked(m)
                && m@ == verification_review_text(batch_id@)),
            ResumeStepPlan::DeleteSource => r == Ok::<ResumeAction, CaravanError>(ResumeAction::ContinueToDeletion),
            ResumeStepPlan::PendingDeleteApproval => r == Ok::<ResumeAction, CaravanError>(
                ResumeAction::ContinueToDeletion,
            ),
            ResumeStepPlan::VerifyBatch => r == Ok::<ResumeAction, CaravanError>(ResumeAction::Verify),
            ResumeStepPlan::CopyBatch => r == Ok::<ResumeAction, CaravanError>(ResumeAction::CopyThenVerify),
        },
{
    match step {
        ResumeStepPlan::BatchFullyCompleted => Ok(ResumeAction::Skip),
        ResumeStepPlan::PostDeleteSnapshot => Ok(ResumeAction::Skip),
        ResumeStepPlan::ConflictOperatorReview { reason } => {
            let mut m = owned("batch ");
            push_str(&mut m, batch_id);
            push_str(&mut m, " requires operator review before continuing: ");
            push_str(&mut m, reason.as_str());
            Err(CaravanError::PolicyBlocked(m))
        },
        ResumeStepPlan::BlockedFailedVerification => {
            let mut m = owned("batch ");
            push_str(&mut m, batch_id);
            push_str(&mut m, " failed verification and requires operator review before continuing");
            Err(CaravanError::PolicyBlocked(m))
        },
        ResumeStepPlan::DeleteSource => Ok(ResumeAction::ContinueToDeletion),
        ResumeStepPlan::PendingDeleteApproval => Ok(ResumeAction::ContinueToDeletion),
        ResumeStepPlan::VerifyBatch => Ok(ResumeAction::Verify),
        ResumeStepPlan::CopyBatch => Ok(ResumeAction::CopyThenVerify),
    }
}

pub open spec fn resume_manifest_missing_text(id: Seq<char>) -> Seq<char> {
    "missing immutable batch manifest for "@ + id + "; cannot continue resume"@
}

/// The batch to resume, materialized from the immutable manifest.
pub fn load_batch_for_resume(batch_state: &BatchState, state: &MigrationState) -> (r: Result<Batch, CaravanError>)
    ensures
        match planned_of(state.planned_batches@, batch_state.batch_id@) {
            Some(p) => r is Ok && p.describes(r->Ok_0),
            None => r is Err && (r->Err_0 matches CaravanError::StateCorrupt(m) && m@ == resume_manifest_missing_text(
                batch_state.batch_id@,
            )),
        },
{
    match state.materialize_planned_batch(batch_state.batch_id.as_str()) {
        Some(b) => Ok(b),
        None => {
            let mut m = owned("missing immutable batch manifest for ");
            push_str(&mut m, batch_state.batch_id.as_str());
            push_str(&mut m, "; cannot continue resume");
            Err(CaravanError::StateCorrupt(m))
        },
    }
}

pub open spec fn disappeared_text(id: Seq<char>) -> Seq<char> {
    "Batch "@ + id + " disappeared from state during resume iteration"@
}

/// The recorded state of a batch that a resume run iterates over.
pub fn resume_batch_state(state: &MigrationState, batch_id: &str) -> (r: Result<BatchState, CaravanError>)
    ensures
        match batch_of(state.batches@, batch_id@) {
            Some(b) => r == Ok::<BatchState, CaravanError>(b),
            None => r is Err && (r->Err_0 matches CaravanError::StateCorrupt(m) && m@ == disappeared_text(batch_id@)),
        },
{
    match state.batch(batch_id) {
        Some(b) => Ok(b.clone()),
        None => {
            let mut m = owned("Batch ");
            push_str(&mut m, batch_id);
            push_str(&mut m, " disappeared from state during resume iteration");
            Err(CaravanError::StateCorrupt(m))
        },
    }
}

/// Whether some batch is not yet deleted from the source.
pub fn has_pending_deletion(state: &MigrationState) -> (r: bool)
    ensures
        r == exists|k: int| 0 <= k < state.batches@.len() && !(#[trigger] state.batches@[k]).deleted,
{
    let mut i: usize = 0;
    while i < state.batches.len()
        invariant
            i <= state.batches@.len(),
            forall|k: int| 0 <= k < i ==> (#[trigger] state.batches@[k]).deleted,
        decreases state.batches.len() - i,
    {
        if !state.batches[i].deleted {
            return true;
        }
        i = i + 1;
    }
    false
}

/// The phase a finished run records: awaiting deletion while some batch is still pending,
/// completed otherwise.
pub fn final_migration_phase(pending_deletion: bool) -> (r: MigrationPhase)
    ensures
        r == if pending_deletion {
            MigrationPhase::AwaitingDeletion
        } else {
            MigrationPhase::Completed
        },
{
    if pending_deletion {
        MigrationPhase::AwaitingDeletion
    } else {
        MigrationPhase::Completed
    }
}

/// The registry status a finished run records, matching [`final_migration_phase`].
pub fn final_migration_status(pending_deletion: bool) -> (r: MigrationStatus)
    ensures
        r == if pending_deletion {
            MigrationStatus::AwaitingDeletion
        } else {
            MigrationStatus::Completed
        },
{
    if pending_deletion {
        MigrationStatus::AwaitingDeletion
    } else {
        MigrationStatus::Completed
    }
}

} // verus!
