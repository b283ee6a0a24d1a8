use caravan::error::CaravanError;
use caravan::models::batch::Batch;
use caravan::models::file_entry::FileEntry;
use caravan::models::state::{BatchPhase, BatchState, MigrationState, PlannedBatch, PlannedFile};
use caravan::resume::{
    decide_resume_step, failed_batches_to_inspect, format_reconciliation_summary,
    inspect_failed_batches, load_state_for_resume, plan_resume_step, plan_resume_step_with_recovery,
    reconcile_batch_destination, reconciliation_summary, recovery_message,
    require_delete_permission_for_resume, summarize_resume_execution, summarize_resume_state,
    FailureClass, ReconciliationResult, ResumeOptions, ResumeStepPlan,
};

fn state(phase: BatchPhase, verified: bool, approved: bool, deleted: bool) -> BatchState {
    BatchState {
        batch_id: "batch-000001".to_string(),
        phase,
        verification_passed: verified,
        approved_for_delete: approved,
        deleted,
    }
}

fn recon(ready: bool, missing: &[&str], mismatched: &[&str]) -> ReconciliationResult {
    ReconciliationResult {
        all_destination_files_ready: ready,
        missing_in_destination: missing.iter().map(|s| s.to_string()).collect(),
        size_mismatches: mismatched.iter().map(|s| s.to_string()).collect(),
    }
}

fn batch() -> Batch {
    Batch {
        id: "batch-000001".to_string(),
        files: vec![
            FileEntry { relative_path: "a".to_string(), size_bytes: 3, modified_time: None },
            FileEntry { relative_path: "b".to_string(), size_bytes: 4, modified_time: None },
            FileEntry { relative_path: "c".to_string(), size_bytes: 5, modified_time: None },
        ],
        total_bytes: 12,
        file_count: 3,
    }
}

#[test]
fn failure_classes_have_stable_names_and_advice() {
    assert_eq!(FailureClass::StateMissing.as_str(), "state_missing");
    assert_eq!(FailureClass::ResumePolicyBlocked.as_str(), "resume_policy_blocked");
    assert!(recovery_message(FailureClass::CapacityExhausted).starts_with("Destination ran out of space"));
}

#[test]
fn reconciliation_classifies_each_file() {
    let r = reconcile_batch_destination(&batch(), &vec![Some(3), None, Some(9)]);
    assert_eq!(r.missing_in_destination, vec!["b".to_string()]);
    assert_eq!(r.size_mismatches, vec!["c".to_string()]);
    assert!(!r.all_destination_files_ready);

    let r = reconcile_batch_destination(&batch(), &vec![Some(3), Some(4), Some(5)]);
    assert!(r.all_destination_files_ready);
}

#[test]
fn reconciliation_summary_renders_debug_lists() {
    let r = recon(false, &["x \"q\""], &[]);
    assert_eq!(
        reconciliation_summary(&r),
        "missing_in_destination=[\"x \\\"q\\\"\"]; size_mismatches=[]"
    );
    assert_eq!(format_reconciliation_summary("[a]", "[]"), "missing_in_destination=[a]; size_mismatches=[]");
}

#[test]
fn resume_steps_follow_the_recorded_phase() {
    let b = batch();
    let ready = recon(true, &[], &[]);
    let missing = recon(false, &["a"], &[]);
    assert_eq!(plan_resume_step(&state(BatchPhase::Planned, false, false, false), &ready, &b), ResumeStepPlan::CopyBatch);
    assert_eq!(plan_resume_step(&state(BatchPhase::CopyStarted, false, false, false), &ready, &b), ResumeStepPlan::VerifyBatch);
    assert_eq!(plan_resume_step(&state(BatchPhase::CopyStarted, false, false, false), &missing, &b), ResumeStepPlan::CopyBatch);
    assert_eq!(
        plan_resume_step(&state(BatchPhase::CopyCompleted, false, false, false), &missing, &b),
        ResumeStepPlan::ConflictOperatorReview {
            reason: "state says copy completed but destination is incomplete: missing [\"a\"], size mismatches []".to_string()
        }
    );
    assert_eq!(plan_resume_step(&state(BatchPhase::VerifyCompleted, false, false, false), &ready, &b), ResumeStepPlan::BlockedFailedVerification);
    assert_eq!(plan_resume_step(&state(BatchPhase::VerifyCompleted, true, false, false), &ready, &b), ResumeStepPlan::PendingDeleteApproval);
    assert_eq!(plan_resume_step(&state(BatchPhase::VerifyCompleted, true, true, false), &ready, &b), ResumeStepPlan::DeleteSource);
    assert_eq!(plan_resume_step(&state(BatchPhase::ApprovedForDelete, true, true, true), &ready, &b), ResumeStepPlan::PostDeleteSnapshot);
    assert_eq!(plan_resume_step(&state(BatchPhase::DeleteCompleted, true, true, true), &ready, &b), ResumeStepPlan::PostDeleteSnapshot);
    assert_eq!(plan_resume_step(&state(BatchPhase::SnapshotCompleted, true, true, true), &ready, &b), ResumeStepPlan::BatchFullyCompleted);
}

#[test]
fn failed_batches_need_review_unless_recovery_is_allowed() {
    let b = batch();
    let failed = state(BatchPhase::Failed, false, false, false);
    let step = plan_resume_step(&failed, &recon(true, &[], &[]), &b);
    assert_eq!(
        step,
        ResumeStepPlan::ConflictOperatorReview {
            reason: "batch is marked failed; operator review required (missing_in_destination=[]; size_mismatches=[])".to_string()
        }
    );
    assert_eq!(plan_resume_step_with_recovery(&failed, &recon(true, &[], &[]), &b, true), ResumeStepPlan::VerifyBatch);
    assert_eq!(plan_resume_step_with_recovery(&failed, &recon(false, &["a"], &[]), &b, true), ResumeStepPlan::CopyBatch);
    assert_eq!(
        decide_resume_step(&failed, &recon(false, &[], &["c"]), true, "[]", "[\"c\"]"),
        ResumeStepPlan::ConflictOperatorReview {
            reason: "failed-batch recovery blocked due to destination size mismatches (missing_in_destination=[]; size_mismatches=[\"c\"])".to_string()
        }
    );
}

#[test]
fn delete_permission_fails_closed() {
    let non_interactive = ResumeOptions { interactive: false, explicit_delete_approval: false };
    let explicit = ResumeOptions { interactive: false, explicit_delete_approval: true };
    let interactive = ResumeOptions { interactive: true, explicit_delete_approval: false };

    let err = require_delete_permission_for_resume(&state(BatchPhase::VerifyCompleted, true, false, false), &non_interactive)
        .expect_err("no approval");
    assert!(matches!(err, CaravanError::Resume { ref class, .. } if class == "resume_policy_blocked"));
    assert!(err.to_string().contains("Resume blocked by safety policy"));

    let err = require_delete_permission_for_resume(&state(BatchPhase::VerifyCompleted, false, true, false), &explicit)
        .expect_err("unverified");
    assert_eq!(
        err.to_string(),
        "resume (resume_policy_blocked): cannot delete: verification did not pass for this batch"
    );

    require_delete_permission_for_resume(&state(BatchPhase::VerifyCompleted, true, false, false), &explicit).expect("explicit");
    require_delete_permission_for_resume(&state(BatchPhase::VerifyCompleted, true, false, false), &interactive).expect("interactive");
    require_delete_permission_for_resume(&state(BatchPhase::ApprovedForDelete, true, true, false), &non_interactive).expect("approved");
    require_delete_permission_for_resume(&state(BatchPhase::DeleteCompleted, false, false, true), &non_interactive).expect("deleted");
}

#[test]
fn load_state_for_resume_classifies_failures() {
    let err = load_state_for_resume("/x/state.json", None).expect_err("missing");
    assert_eq!(err.to_string(), "resume (state_missing): state file does not exist: /x/state.json");

    let read = CaravanError::StateRead { path: "/x".to_string(), source: "denied".to_string() };
    let err = load_state_for_resume("/x", Some(Err(read))).expect_err("read error");
    assert_eq!(err.to_string(), "resume (io_error): failed to read state file /x: denied");

    let parse = CaravanError::StateParse { path: "/x".to_string(), source: "eof".to_string() };
    let err = load_state_for_resume("/x", Some(Err(parse))).expect_err("parse error");
    assert_eq!(err.to_string(), "resume (state_corrupted): failed to parse state file /x: eof");

    let state = MigrationState::new("staging", "/s", "/d");
    let loaded = load_state_for_resume("/x", Some(Ok(state))).expect("loaded");
    assert_eq!(loaded.mode, "staging");
}

#[test]
fn resume_summaries_count_deleted_batches() {
    let mut s = MigrationState::new("migrate", "/s", "/d");
    s.batches = vec![state(BatchPhase::DeleteCompleted, true, true, true), state(BatchPhase::Planned, false, false, false)];
    s.batches[1].batch_id = "batch-000002".to_string();
    let summary = summarize_resume_state(&s);
    assert_eq!(summary.mode, "migrate");
    assert_eq!(summary.total_batches, 2);
    assert_eq!(summary.completed_batches, 1);
    let exec = summarize_resume_execution(&s);
    assert_eq!(exec.pending_delete_batches, 1);
    assert_eq!(exec.completed_batches + exec.pending_delete_batches, exec.total_batches);
}

#[test]
fn failed_batch_inspection_uses_the_manifest() {
    let mut s = MigrationState::new("staging", "/s", "/d");
    s.batches = vec![state(BatchPhase::Failed, false, false, false)];
    let err = failed_batches_to_inspect(&s).expect_err("no manifest");
    assert_eq!(
        err.to_string(),
        "state corruption: missing immutable batch manifest for batch-000001; cannot inspect failed batch safely"
    );

    s.planned_batches.push(PlannedBatch {
        batch_id: "batch-000001".to_string(),
        file_count: 2,
        total_bytes: 3,
        files: vec![
            PlannedFile { relative_path: "a".to_string(), size_bytes: 1 },
            PlannedFile { relative_path: "b".to_string(), size_bytes: 2 },
        ],
    });
    let batches = failed_batches_to_inspect(&s).expect("manifest present");
    assert_eq!(batches.len(), 1);
    let report = inspect_failed_batches(&s, &vec![vec![Some(1), None]]).expect("report");
    assert_eq!(report.failed_batch_count, 1);
    assert_eq!(report.failed_batches[0].missing_in_destination, vec!["b".to_string()]);
    assert!(!report.failed_batches[0].all_destination_files_ready);
}
