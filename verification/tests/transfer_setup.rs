use caravan::config::{ConflictPolicy, CopyStrategy, Mode, TransferConfig};
use caravan::models::batch::Batch;
use caravan::models::file_entry::FileEntry;
use caravan::models::state::{
    BatchPhase, CompletedFileIdentity, MigrationPhase, MigrationState, PlannedBatch,
};
use caravan::plan::types::PlanningSnapshot;
use caravan::workflow::setup::{
    apply_transfer_config, handle_state_identity_mismatch, mode_name,
    normalize_legacy_state_copy_strategy, planned_batch_state, seed_state_batches,
    state_has_manifest, state_identity_matches, state_is_empty_for_completed_file_filtering,
    seed_or_check_manifest, seed_or_check_resume_manifest, state_file_to_load, ReconciledStateSource,
};

fn sample_transfer_config(source: &str) -> TransferConfig {
    TransferConfig {
        mode: Mode::Staging,
        source: source.to_string(),
        dest: "/dest".to_string(),
        batch_size_bytes: 1024,
        max_files: Some(10),
        snapshot_every: Some(2),
        snapshot_dir: Some("/snapshots".to_string()),
        interactive: true,
        log_level: "info".to_string(),
        skip_conflicts: false,
        conflict_policy: ConflictPolicy::SkipFile,
        recover_failed: false,
        allow_unsafe_filesystems: false,
        copy_strategy: CopyStrategy::Auto,
    }
}

fn sample_plan() -> PlanningSnapshot {
    PlanningSnapshot {
        source_file_count: 1,
        source_total_bytes: 5,
        batches: vec![Batch {
            id: "batch-000001".to_string(),
            file_count: 1,
            total_bytes: 5,
            files: vec![FileEntry {
                relative_path: "a.txt".to_string(),
                size_bytes: 5,
                modified_time: None,
            }],
        }],
    }
}

#[test]
fn state_has_manifest_detects_presence_of_planned_batches() {
    let mut state = MigrationState::new("staging", "/src", "/dst");
    assert!(!state_has_manifest(&state));

    state.planned_batches.push(PlannedBatch {
        batch_id: "batch-000001".to_string(),
        file_count: 0,
        total_bytes: 0,
        files: Vec::new(),
    });
    assert!(state_has_manifest(&state));

    state.planned_batches.clear();
    state.skipped_completed_files.push(CompletedFileIdentity {
        mode: "staging".to_string(),
        relative_path: "already-done.txt".to_string(),
        size_bytes: 1,
        blake3_hash: "hash".to_string(),
    });
    assert!(state_has_manifest(&state));
}

#[test]
fn empty_state_is_recognized_for_completed_file_filtering() {
    let mut state = MigrationState::new("staging", "/src", "/dst");
    assert!(state_is_empty_for_completed_file_filtering(&state));
    state.batches.push(planned_batch_state("batch-1"));
    assert!(!state_is_empty_for_completed_file_filtering(&state));
}

#[test]
fn mode_name_renders_expected_values() {
    assert_eq!(mode_name(&Mode::Staging), "staging");
    assert_eq!(mode_name(&Mode::Migrate), "migrate");
}

#[test]
fn normalize_legacy_state_copy_strategy_handles_buffered() {
    let mut state = MigrationState::new("staging", "/src", "/dst");
    state.copy_strategy = CopyStrategy::Buffered;
    normalize_legacy_state_copy_strategy(&mut state);
    assert_eq!(state.copy_strategy, CopyStrategy::Auto);
}

#[test]
fn normalize_legacy_state_copy_strategy_handles_linux_native() {
    let mut state = MigrationState::new("staging", "/src", "/dst");
    state.copy_strategy = CopyStrategy::Native;
    normalize_legacy_state_copy_strategy(&mut state);
    assert_eq!(state.copy_strategy, CopyStrategy::Auto);
}

#[test]
fn apply_transfer_config_updates_runtime_fields() {
    let config = sample_transfer_config("/tmp/source-root");

    let mut state = MigrationState::new("staging", "/old-src", "/old-dst");
    apply_transfer_config(&mut state, &config);

    assert_eq!(state.batch_size_bytes, 1024);
    assert_eq!(state.max_files, Some(10));
    assert_eq!(state.snapshot_every, Some(2));
    assert_eq!(state.snapshot_dir.as_deref(), Some("/snapshots"));
    assert_eq!(state.copy_strategy, CopyStrategy::Auto);
}

#[test]
fn planned_batch_state_sets_safe_defaults() {
    let batch = planned_batch_state("batch-42");
    assert_eq!(batch.batch_id, "batch-42");
    assert_eq!(batch.phase, BatchPhase::Planned);
    assert!(!batch.verification_passed);
    assert!(!batch.approved_for_delete);
    assert!(!batch.deleted);
}

#[test]
fn seed_state_batches_is_idempotent() {
    let mut state = MigrationState::new("staging", "/src", "/dst");
    let plan = sample_plan();

    seed_state_batches(&mut state, &plan);
    seed_state_batches(&mut state, &plan);

    assert_eq!(state.planned_batches.len(), 1);
    assert_eq!(state.batches.len(), 1);
    assert_eq!(state.batches[0].batch_id, "batch-000001");
}

#[test]
fn seed_state_batches_keeps_recorded_progress() {
    let mut state = MigrationState::new("staging", "/src", "/dst");
    let mut progressed = planned_batch_state("batch-000001");
    progressed.phase = BatchPhase::VerifyCompleted;
    progressed.verification_passed = true;
    state.upsert_batch(progressed);

    seed_state_batches(&mut state, &sample_plan());

    assert_eq!(state.batches.len(), 1);
    assert_eq!(state.batches[0].phase, BatchPhase::VerifyCompleted);
    assert_eq!(state.planned_batches.len(), 1);
    assert_eq!(state.planned_batches[0].files[0].relative_path, "a.txt");
}

#[test]
fn handle_state_identity_mismatch_secondary_creates_fresh_state() {
    let loaded = MigrationState::new("staging", "/wrong-src", "/wrong-dst");

    let recovered = handle_state_identity_mismatch(
        "staging",
        "/src",
        "/dst",
        ReconciledStateSource::Secondary,
        &loaded,
    )
    .expect("secondary mismatch should recover with fresh state");

    assert_eq!(recovered.mode, "staging");
    assert_eq!(recovered.source, "/src");
    assert_eq!(recovered.destination, "/dst");
    assert_eq!(recovered.migration_phase, MigrationPhase::NotStarted);
}

#[test]
fn handle_state_identity_mismatch_primary_returns_error() {
    let loaded = MigrationState::new("staging", "/wrong-src", "/wrong-dst");

    let err = handle_state_identity_mismatch(
        "staging",
        "/src",
        "/dst",
        ReconciledStateSource::Primary,
        &loaded,
    )
    .expect_err("primary mismatch must fail closed");

    assert!(err.to_string().contains("state identity mismatch"));
}

#[test]
fn state_identity_compares_mode_case_and_slashes() {
    assert!(state_identity_matches("Staging", "staging", "C:\\data", "C:/data", "/dst", "/dst"));
    assert!(!state_identity_matches("migrate", "staging", "/src", "/src", "/dst", "/dst"));
    assert!(!state_identity_matches("staging", "staging", "/src", "/other", "/dst", "/dst"));
}

#[test]
fn seeding_adds_one_entry_per_new_identifier_in_plan_order() {
    let mut state = MigrationState::new("staging", "/src", "/dst");
    let one = sample_plan().batches[0].clone();
    let mut two = one.clone();
    two.id = "batch-000002".to_string();
    let plan = PlanningSnapshot {
        source_file_count: 3,
        source_total_bytes: 15,
        batches: vec![two.clone(), one.clone(), two.clone()],
    };
    seed_state_batches(&mut state, &plan);
    let planned: Vec<&str> = state.planned_batches.iter().map(|p| p.batch_id.as_str()).collect();
    assert_eq!(planned, vec!["batch-000002", "batch-000001"]);
    let states: Vec<&str> = state.batches.iter().map(|b| b.batch_id.as_str()).collect();
    assert_eq!(states, vec!["batch-000002", "batch-000001"]);
}

#[test]
fn the_canonical_state_file_is_preferred() {
    assert_eq!(state_file_to_load(true, true), Some(ReconciledStateSource::Primary));
    assert_eq!(state_file_to_load(true, false), Some(ReconciledStateSource::Primary));
    assert_eq!(state_file_to_load(false, true), Some(ReconciledStateSource::Secondary));
    assert_eq!(state_file_to_load(false, false), None);
}

#[test]
fn seed_or_check_manifest_seeds_an_empty_state_then_checks() {
    let mut state = MigrationState::new("staging", "/src", "/dst");
    let plan = sample_plan();
    assert_eq!(seed_or_check_manifest(&mut state, &plan), Ok(true));
    assert_eq!(state.planned_batches.len(), 1);
    assert_eq!(state.planned_batches[0].batch_id, "batch-000001");
    let before = state.clone();
    assert_eq!(seed_or_check_manifest(&mut state, &plan), Ok(false));
    assert_eq!(state, before);

    let mut drifted = plan.clone();
    drifted.batches[0].id = "batch-000009".to_string();
    let err = seed_or_check_manifest(&mut state, &drifted).expect_err("drift");
    assert!(err.to_string().contains("unknown batch id batch-000009"));
    assert_eq!(state, before);
}

#[test]
fn a_state_with_skipped_files_is_checked_not_seeded() {
    let mut state = MigrationState::new("staging", "/src", "/dst");
    state.skipped_completed_files.push(CompletedFileIdentity {
        mode: "staging".to_string(),
        relative_path: "done.txt".to_string(),
        size_bytes: 1,
        blake3_hash: "hash".to_string(),
    });
    let err = seed_or_check_manifest(&mut state, &sample_plan()).expect_err("count drift");
    assert!(err.to_string().contains("batch count changed"));
    assert!(state.planned_batches.is_empty());
    assert_eq!(seed_or_check_resume_manifest(&mut state, &sample_plan()), Ok(true));
    assert_eq!(state.planned_batches.len(), 1);
}
