use caravan::config::{ConflictPolicy, CopyStrategy, Mode, TransferConfig};
use caravan::models::state::{BatchPhase, BatchState, MigrationState, PlannedBatch, PlannedFile};
use caravan::resume::ResumeStepPlan;
use caravan::workflow::batch_flow::{
    effective_conflict_policy, effective_conflict_policy_for_resume, load_batch_for_resume,
    resume_step_action, ResumeAction,
};
use caravan::workflow::setup::{normalize_legacy_copy_strategy, transfer_config_from_state};

fn base_state(mode: &str) -> MigrationState {
    let mut state = MigrationState::new(mode, "/src", "/dst");
    state.batch_size_bytes = 1024;
    state.max_files = Some(7);
    state.snapshot_every = Some(3);
    state.snapshot_dir = Some("/snapshots".to_string());
    state
}

fn sample_config() -> TransferConfig {
    TransferConfig {
        mode: Mode::Staging,
        source: "/src".to_string(),
        dest: "/dst".to_string(),
        batch_size_bytes: 1024,
        max_files: None,
        snapshot_every: None,
        snapshot_dir: None,
        interactive: false,
        log_level: "info".to_string(),
        skip_conflicts: false,
        conflict_policy: ConflictPolicy::SkipBatch,
        recover_failed: false,
        allow_unsafe_filesystems: false,
        copy_strategy: CopyStrategy::Auto,
    }
}

fn planned_state(id: &str) -> BatchState {
    BatchState {
        batch_id: id.to_string(),
        phase: BatchPhase::Planned,
        verification_passed: false,
        approved_for_delete: false,
        deleted: false,
    }
}

#[test]
fn transfer_config_from_state_maps_common_fields() {
    let mut state = base_state("staging");
    state.copy_strategy = CopyStrategy::Auto;

    let config = transfer_config_from_state(&state, true).expect("config should be created");

    assert_eq!(config.mode, Mode::Staging);
    assert_eq!(config.source, "/src");
    assert_eq!(config.dest, "/dst");
    assert_eq!(config.batch_size_bytes, 1024);
    assert_eq!(config.max_files, Some(7));
    assert_eq!(config.snapshot_every, Some(3));
    assert_eq!(config.snapshot_dir, Some("/snapshots".to_string()));
    assert!(config.interactive);
    assert!(config.recover_failed);
}

#[test]
fn transfer_config_from_state_rejects_unknown_mode() {
    let state = base_state("unexpected");
    let err = transfer_config_from_state(&state, false).expect_err("unknown mode must fail");
    assert!(err.to_string().contains("Unknown mode in state"));
}

#[test]
fn normalize_legacy_buffered_strategy_falls_back_to_auto() {
    let normalized = normalize_legacy_copy_strategy(CopyStrategy::Buffered);
    assert_eq!(normalized, CopyStrategy::Auto);
}

#[test]
fn normalize_legacy_native_strategy_falls_back_to_auto_on_linux() {
    let normalized = normalize_legacy_copy_strategy(CopyStrategy::Native);
    assert_eq!(normalized, CopyStrategy::Auto);
}

#[test]
fn load_batch_for_resume_errors_when_manifest_is_missing() {
    let state = MigrationState::new("staging", "/src", "/dst");
    let batch_state = planned_state("batch-000001");

    let err = load_batch_for_resume(&batch_state, &state)
        .expect_err("missing planned batch must be treated as corrupt state");
    assert!(err.to_string().contains("missing immutable batch manifest"));
}

#[test]
fn load_batch_for_resume_materializes_batch_from_manifest() {
    let mut state = MigrationState::new("staging", "/src", "/dst");
    state.upsert_planned_batch(PlannedBatch {
        batch_id: "batch-000001".to_string(),
        file_count: 1,
        total_bytes: 7,
        files: vec![PlannedFile {
            relative_path: "a.txt".to_string(),
            size_bytes: 7,
        }],
    });
    let batch_state = planned_state("batch-000001");

    let batch = load_batch_for_resume(&batch_state, &state).expect("batch should load");
    assert_eq!(batch.id, "batch-000001");
    assert_eq!(batch.file_count, 1);
    assert_eq!(batch.total_bytes, 7);
    assert_eq!(batch.files[0].relative_path, "a.txt");
}

#[test]
fn effective_conflict_policy_for_resume_recovery_forces_skip_file() {
    let mut config = sample_config();
    assert_eq!(effective_conflict_policy_for_resume(&config), ConflictPolicy::SkipBatch);
    config.recover_failed = true;
    assert_eq!(effective_conflict_policy_for_resume(&config), ConflictPolicy::SkipFile);
}

#[test]
fn effective_conflict_policy_skip_conflicts_forces_skip_file() {
    let mut config = sample_config();
    assert_eq!(effective_conflict_policy(&config), ConflictPolicy::SkipBatch);
    config.skip_conflicts = true;
    assert_eq!(effective_conflict_policy(&config), ConflictPolicy::SkipFile);
}

#[test]
fn execute_resume_step_returns_policy_blocked_for_conflict_review() {
    let err = resume_step_action(
        &ResumeStepPlan::ConflictOperatorReview {
            reason: "conflict".to_string(),
        },
        "batch-000001",
    )
    .expect_err("conflict review must block");
    assert_eq!(
        err.to_string(),
        "policy blocked: batch batch-000001 requires operator review before continuing: conflict"
    );
}

#[test]
fn resume_step_actions_follow_the_plan() {
    assert_eq!(
        resume_step_action(&ResumeStepPlan::CopyBatch, "b").expect("copy"),
        ResumeAction::CopyThenVerify
    );
    assert_eq!(
        resume_step_action(&ResumeStepPlan::PendingDeleteApproval, "b").expect("deletion"),
        ResumeAction::ContinueToDeletion
    );
    assert_eq!(
        resume_step_action(&ResumeStepPlan::PostDeleteSnapshot, "b").expect("skip"),
        ResumeAction::Skip
    );
    let err = resume_step_action(&ResumeStepPlan::BlockedFailedVerification, "b")
        .expect_err("blocked");
    assert!(err.to_string().contains("failed verification"));
}
