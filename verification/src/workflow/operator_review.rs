//! Batches that need an operator's review before a run may go on.

use vstd::prelude::*;

use crate::error::CaravanError;
use crate::models::state::{ids_where, BatchPhase, BatchState, MigrationState};
use crate::resume::failed_open;
use crate::text::{join_strings, join_texts, owned, push_str};

verus! {

/// Whether failed batches may stay while a run goes on.
#[derive(Debug, Clone, Copy, PartialEq, Eq)]
pub struct OperatorReviewPolicy {
    pub allow_failed_batches: bool,
}

/// Recorded as verified (or later) although the verification did not pass, and not deleted.
pub open spec fn failed_verification_open(b: BatchState) -> bool {
    &&& !b.deleted
    &&& !b.verification_passed
    &&& (b.phase == BatchPhase::VerifyCompleted || b.phase == BatchPhase::ApprovedForDelete || b.phase
        == BatchPhase::DeleteCompleted || b.phase == BatchPhase::SnapshotCompleted)
}

fn ids_matching(state: &MigrationState, verification: bool) -> (r: Vec<String>)
    ensures
        verification ==> r.deep_view() == ids_where(state.batches@, |b: BatchState| failed_verification_open(b)),
        !verification ==> r.deep_view() == ids_where(state.batches@, |b: BatchState| failed_open(b)),
{
    let ghost pred = if verification {
        |b: BatchState| failed_verification_open(b)
    } else {
        |b: BatchState| failed_open(b)
    };
    let mut out: Vec<String> = Vec::new();
    let mut i: usize = 0;
    while i < state.batches.len()
        invariant
            i <= state.batches@.len(),
            pred == (if verification {
                |b: BatchState| failed_verification_open(b)
            } else {
                |b: BatchState| failed_open(b)
            }),
            out.deep_view() == ids_where(state.batches@.take(i as int), pred),
        decreases state.batches.len() - i,
    {
        let b = &state.batches[i];
        assert(state.batches@.take(i + 1 as int).drop_last() =~= state.batches@.take(i as int));
        let hit = if verification {
            !b.deleted && !b.verification_passed && (b.phase == BatchPhase::VerifyCompleted || b.phase
                == BatchPhase::ApprovedForDelete || b.phase == BatchPhase::DeleteCompleted || b.phase
                == BatchPhase::SnapshotCompleted)
        } else {
            b.phase == BatchPhase::Failed && !b.deleted
        };
        assert(hit == pred(*b));
        if hit {
            out.push(b.batch_id.clone());
        }
        i = i + 1;
        assert(out.deep_view() =~= ids_where(state.batches@.take(i as int), pred));
    }
    assert(state.batches@.take(state.batches.len() as int) =~= state.batches@);
    out
}

/// The failed batches that are not deleted, in state order.
pub fn failed_batches_requiring_review(state: &MigrationState) -> (r: Vec<String>)
    ensures
        r.deep_view() == ids_where(state.batches@, |b: BatchState| failed_open(b)),
{
    ids_matching(state, false)
}

/// The batches recorded as verified although their verification did not pass, in state order.
pub fn failed_verification_batches_requiring_review(state: &MigrationState) -> (r: Vec<String>)
    ensures
        r.deep_view() == ids_where(state.batches@, |b: BatchState| failed_verification_open(b)),
{
    ids_matching(state, true)
}

pub open spec fn failed_review_text(ids: Seq<Seq<char>>) -> Seq<char> {
    "one or more batches require operator review before continuing: "@ + join_texts(ids, ", "@)
}

pub open spec fn failed_verification_review_text(ids: Seq<Seq<char>>) -> Seq<char> {
    "one or more batches failed verification and require operator review before continuing: "@
        + join_texts(ids, ", "@)
}

/// `e` is the policy error with message `text`.
pub open spec fn is_policy_blocked(e: CaravanError, text: Seq<char>) -> bool {
    e matches CaravanError::PolicyBlocked(m) && m@ == text
}

/// Refuses to go on while a failed batch is not deleted.
pub fn ensure_no_failed_batches(state: &MigrationState) -> (r: Result<(), CaravanError>)
    ensures
        ({
            let ids = ids_where(state.batches@, |b: BatchState| failed_open(b));
            &&& ids.len() == 0 ==> r is Ok
            &&& ids.len() > 0 ==> r is Err && is_policy_blocked(r->Err_0, failed_review_text(ids))
        }),
{
    let failed = failed_batches_requiring_review(state);
    if failed.len() > 0 {
        let mut m = owned("one or more batches require operator review before continuing: ");
        let joined = join_strings(&failed, ", ");
        push_str(&mut m, joined.as_str());
        return Err(CaravanError::PolicyBlocked(m));
    }
    Ok(())
}

/// Refuses to go on while a batch is recorded as verified with a failed verification.
pub fn ensure_no_failed_verification_batches(state: &MigrationState) -> (r: Result<(), CaravanError>)
    ensures
        ({
            let ids = ids_where(state.batches@, |b: BatchState| failed_verification_open(b));
            &&& ids.len() == 0 ==> r is Ok
            &&& ids.len() > 0 ==> r is Err && is_policy_blocked(r->Err_0, failed_verification_review_text(ids))
        }),
{
    let failed = failed_verification_batches_requiring_review(state);
    if failed.len() > 0 {
        let mut m = owned(
            "one or more batches failed verification and require operator review before continuing: ",
        );
        let joined = join_strings(&failed, ", ");
        push_str(&mut m, joined.as_str());
        return Err(CaravanError::PolicyBlocked(m));
    }
    Ok(())
}

/// The outcome of the review checks under a policy: failed batches first (unless allowed),
/// then failed verifications.
pub open spec fn review_outcome(state: MigrationState, policy: OperatorReviewPolicy, r: Result<(), CaravanError>) -> bool {
    let failed = ids_where(state.batches@, |b: BatchState| failed_open(b));
    let unverified = ids_where(state.batches@, |b: BatchState| failed_verification_open(b));
    if !policy.allow_failed_batches && failed.len() > 0 {
        r is Err && is_policy_blocked(r->Err_0, failed_review_text(failed))
    } else if unverified.len() > 0 {
        r is Err && is_policy_blocked(r->Err_0, failed_verification_review_text(unverified))
    } else {
        r is Ok
    }
}

/// Refuses to go on while any batch needs an operator's review, failed batches aside when the
/// policy allows them.
pub fn ensure_no_operator_review_blocks_with_policy(state: &MigrationState, policy: OperatorReviewPolicy) -> (r: Result<
    (),
    CaravanError,
>)
    ensures
        review_outcome(*state, policy, r),
{
    if !policy.allow_failed_batches {
        match ensure_no_failed_batches(state) {
            Err(e) => {
                return Err(e);
            },
            Ok(()) => {},
        }
    }
    ensure_no_failed_verification_batches(state)
}

/// Refuses to go on while any batch needs an operator's review.
pub fn ensure_no_operator_review_blocks(state: &MigrationState) -> (r: Result<(), CaravanError>)
    ensures
        review_outcome(*state, OperatorReviewPolicy { allow_failed_batches: false }, r),
{
    ensure_no_operator_review_blocks_with_policy(state, OperatorReviewPolicy { allow_failed_batches: false })
}

} // verus!
