use caravan::config::ConflictPolicy;
use caravan::conflict::ConflictReport;
use caravan::migration_registry::MigrationStatus;
use caravan::models::batch::Batch;
use caravan::models::file_entry::FileEntry;
use caravan::models::state::{BatchPhase, BatchState, MigrationPhase, MigrationState};
use caravan::workflow::batch_flow::{
    conflict_review_error, copy_phase_needs_reconciliation, copy_phase_step, decide_batch_copy,
    final_migration_phase, final_migration_status, has_pending_deletion, mark_batch_failed_for_conflicts,
    mark_copy_completed, mark_copy_started, mark_resume_batch_failed_for_conflicts,
    non_conflicting_subset_batch, record_verification_result, requires_conflict_check, resume_batch_state,
    verify_phase_step, verify_step_counts, copy_step_counts, awaits_deletion, CopyDecision, CopyPhaseStep, VerifyPhaseStep,
};

fn batch() -> Batch {
    let files = vec![
        FileEntry { relative_path: "a.txt".to_string(), size_bytes: 10, modified_time: None },
        FileEntry { relative_path: "dir/b.txt".to_string(), size_bytes: 20, modified_time: None },
    ];
    Batch { id: "batch-000001".to_string(), file_count: 2, total_bytes: 30, files }
}

fn report(existing: &[&str]) -> ConflictReport {
    let mut r = ConflictReport::new();
    for path in existing {
        r.add_existing_file(path.to_string());
    }
    r
}

fn state_of(phase: BatchPhase, verified: bool, deleted: bool) -> BatchState {
    BatchState {
        batch_id: "batch-000001".to_string(),
        phase,
        verification_passed: verified,
        approved_for_delete: false,
        deleted,
    }
}

#[test]
fn non_conflicting_subset_batch_excludes_conflicting_paths() {
    let subset = non_conflicting_subset_batch(&batch(), "/dst", &report(&["/dst//dir/b.txt/"]));
    assert_eq!(subset.id, "batch-000001");
    assert_eq!(subset.file_count, 1);
    assert_eq!(subset.total_bytes, 10);
    assert_eq!(subset.files[0].relative_path, "a.txt");
}

#[test]
fn conflicts_are_routed_by_policy() {
    let clean = ConflictReport::new();
    assert_eq!(decide_batch_copy(&batch(), "/dst", &clean, ConflictPolicy::SkipBatch), CopyDecision::CopyAll);

    let some = report(&["/dst/a.txt"]);
    assert_eq!(decide_batch_copy(&batch(), "/dst", &some, ConflictPolicy::SkipBatch), CopyDecision::SkipForConflicts);
    match decide_batch_copy(&batch(), "/dst", &some, ConflictPolicy::SkipFile) {
        CopyDecision::CopySubset(subset) => assert_eq!(subset.files[0].relative_path, "dir/b.txt"),
        other => panic!("unexpected {other:?}"),
    }

    let all = report(&["/dst/a.txt", "/dst/dir/b.txt"]);
    assert_eq!(decide_batch_copy(&batch(), "/dst", &all, ConflictPolicy::SkipFile), CopyDecision::SkipForConflicts);
    assert!(!requires_conflict_check(BatchPhase::CopyStarted));
    assert!(requires_conflict_check(BatchPhase::Failed));
}

#[test]
fn conflicts_mark_the_batch_failed_and_journal_why() {
    let mut state = MigrationState::new("staging", "/s", "/d");
    let mut r = report(&["/d/a.txt"]);
    r.add_size_mismatch("/d/a.txt".to_string(), 10, 11);
    mark_batch_failed_for_conflicts(&batch(), &mut state, &r, 1);
    let b = state.batch("batch-000001").expect("created from a planned state");
    assert_eq!(b.phase, BatchPhase::Failed);
    assert!(!b.verification_passed);
    assert_eq!(state.journal[0].event, "copy_failed_conflict");
    assert_eq!(
        state.journal[0].context,
        "naming_conflicts=1 size_mismatches=1 copied_non_conflicting_files=1 skipped_conflicting_files=1"
    );

    let mut empty = MigrationState::new("staging", "/s", "/d");
    let err = mark_resume_batch_failed_for_conflicts(&batch(), &mut empty, &r, 0).expect_err("no state");
    assert_eq!(
        err.to_string(),
        "state corruption: batch batch-000001 disappeared from state during conflict handling"
    );
    assert!(empty.journal.is_empty());
    assert_eq!(
        conflict_review_error("batch-000001", &r).to_string(),
        "policy blocked: batch batch-000001 requires operator review before continuing: naming conflicts=1 size_mismatches=1"
    );
}

#[test]
fn copy_and_verification_update_the_batch_state() {
    let mut state = MigrationState::new("staging", "/s", "/d");
    assert_eq!(mark_copy_started(&mut state, "batch-000001"), None);
    state.upsert_batch(state_of(BatchPhase::Planned, true, false));

    let started = mark_copy_started(&mut state, "batch-000001").expect("known batch");
    assert_eq!(state.batches[0].phase, BatchPhase::CopyStarted);
    mark_copy_completed(&mut state, started, true);
    assert_eq!(state.batches[0].phase, BatchPhase::CopyCompleted);
    assert!(!state.batches[0].verification_passed);

    let verified = record_verification_result(&mut state, "batch-000001", true).expect("known batch");
    assert!(verified.verification_passed);
    assert_eq!(state.batches[0].phase, BatchPhase::VerifyCompleted);
}

#[test]
fn run_verify_phase_skips_failed_batches_without_processing() {
    let failed = state_of(BatchPhase::Failed, false, false);
    let step = verify_phase_step(Some(&failed));
    assert_eq!(step, VerifyPhaseStep::SkipFailed);
    assert!(!verify_step_counts(step));
}

#[test]
fn run_verify_phase_counts_already_verified_batches() {
    let verified = state_of(BatchPhase::VerifyCompleted, true, false);
    let step = verify_phase_step(Some(&verified));
    assert_eq!(step, VerifyPhaseStep::SkipVerified);
    assert!(verify_step_counts(step));
    assert_eq!(verify_phase_step(None), VerifyPhaseStep::Verify);
    assert_eq!(verify_phase_step(Some(&state_of(BatchPhase::DeleteCompleted, true, true))), VerifyPhaseStep::SkipDeleted);
}

#[test]
fn copy_phase_skips_completed_and_copied_batches() {
    let deleted = state_of(BatchPhase::DeleteCompleted, true, true);
    assert_eq!(copy_phase_step(Some(&deleted), false), CopyPhaseStep::SkipCompleted);
    let copied = state_of(BatchPhase::CopyCompleted, false, false);
    assert!(copy_phase_needs_reconciliation(Some(&copied)));
    assert_eq!(copy_phase_step(Some(&copied), true), CopyPhaseStep::SkipAlreadyCopied);
    assert_eq!(copy_phase_step(Some(&copied), false), CopyPhaseStep::Copy);
    let planned = state_of(BatchPhase::Planned, false, false);
    assert!(!copy_phase_needs_reconciliation(Some(&planned)));
    assert_eq!(copy_phase_step(Some(&planned), true), CopyPhaseStep::Copy);
    assert_eq!(copy_phase_step(None, true), CopyPhaseStep::Copy);
}

#[test]
fn runs_finish_awaiting_deletion_while_batches_remain() {
    let mut state = MigrationState::new("staging", "/s", "/d");
    assert!(!has_pending_deletion(&state));
    state.upsert_batch(state_of(BatchPhase::VerifyCompleted, true, false));
    assert!(has_pending_deletion(&state));
    assert_eq!(final_migration_phase(true), MigrationPhase::AwaitingDeletion);
    assert_eq!(final_migration_phase(false), MigrationPhase::Completed);
    assert_eq!(final_migration_status(false), MigrationStatus::Completed);
    assert_eq!(
        resume_batch_state(&state, "other").expect_err("unknown").to_string(),
        "state corruption: Batch other disappeared from state during resume iteration"
    );
}

#[test]
fn only_deleted_batches_count_in_the_copy_phase() {
    assert!(copy_step_counts(CopyPhaseStep::SkipCompleted));
    assert!(!copy_step_counts(CopyPhaseStep::SkipAlreadyCopied));
    assert!(!copy_step_counts(CopyPhaseStep::Copy));
}

#[test]
fn deletion_skips_unknown_and_deleted_batches() {
    let mut state = MigrationState::new("staging", "/src", "/dst");
    assert!(!awaits_deletion(&state, "batch-000001"));
    state.upsert_batch(state_of(BatchPhase::ApprovedForDelete, true, false));
    assert!(awaits_deletion(&state, "batch-000001"));
    state.upsert_batch(state_of(BatchPhase::DeleteCompleted, true, true));
    assert!(!awaits_deletion(&state, "batch-000001"));
}
