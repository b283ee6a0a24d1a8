use caravan::models::state::{BatchPhase, BatchState, MigrationState};
use caravan::workflow::operator_review::{
    ensure_no_operator_review_blocks, ensure_no_operator_review_blocks_with_policy,
    failed_batches_requiring_review, failed_verification_batches_requiring_review,
    OperatorReviewPolicy,
};

fn state_with_batches(batches: Vec<BatchState>) -> MigrationState {
    let mut state = MigrationState::new("staging", "/src", "/dst");
    state.batches = batches;
    state
}

fn batch(id: &str, phase: BatchPhase, verified: bool, deleted: bool) -> BatchState {
    BatchState {
        batch_id: id.to_string(),
        phase,
        verification_passed: verified,
        approved_for_delete: false,
        deleted,
    }
}

#[test]
fn failed_batches_requiring_review_ignores_deleted_entries() {
    let state = state_with_batches(vec![
        batch("failed-active", BatchPhase::Failed, false, false),
        batch("failed-deleted", BatchPhase::Failed, false, true),
    ]);

    let failed = failed_batches_requiring_review(&state);
    assert_eq!(failed, vec!["failed-active".to_string()]);
}

#[test]
fn failed_verification_batches_requiring_review_filters_by_phase() {
    let state = state_with_batches(vec![
        batch("verify-failed", BatchPhase::VerifyCompleted, false, false),
        batch("copy-phase", BatchPhase::CopyCompleted, false, false),
    ]);

    let failed = failed_verification_batches_requiring_review(&state);
    assert_eq!(failed, vec!["verify-failed".to_string()]);
}

#[test]
fn operator_review_policy_can_allow_failed_batches_only() {
    let state = state_with_batches(vec![batch("failed-active", BatchPhase::Failed, false, false)]);

    ensure_no_operator_review_blocks_with_policy(
        &state,
        OperatorReviewPolicy {
            allow_failed_batches: true,
        },
    )
    .expect("policy should allow failed batches");
}

#[test]
fn failed_verification_blocks_even_when_failed_batches_are_allowed() {
    let state = state_with_batches(vec![batch("verify-failed", BatchPhase::VerifyCompleted, false, false)]);

    let err = ensure_no_operator_review_blocks_with_policy(
        &state,
        OperatorReviewPolicy {
            allow_failed_batches: true,
        },
    )
    .expect_err("failed verification must still block");

    assert!(err.to_string().contains("failed verification"));
}

#[test]
fn failed_batches_block_by_default_with_the_listed_ids() {
    let state = state_with_batches(vec![
        batch("b1", BatchPhase::Failed, false, false),
        batch("b2", BatchPhase::Planned, false, false),
        batch("b3", BatchPhase::Failed, false, false),
    ]);
    let err = ensure_no_operator_review_blocks(&state).expect_err("failed batches block");
    assert_eq!(
        err.to_string(),
        "policy blocked: one or more batches require operator review before continuing: b1, b3"
    );
}

#[test]
fn clean_state_passes_review() {
    let state = state_with_batches(vec![batch("b1", BatchPhase::VerifyCompleted, true, false)]);
    ensure_no_operator_review_blocks(&state).expect("nothing to review");
}
