//! Deleting the source files of a batch, only once it is verified and approved.

use vstd::prelude::*;

use crate::clock::now_unix_secs;
use crate::error::CaravanError;
use crate::models::batch::Batch;
use crate::models::file_entry::FileEntry;
use crate::models::state::{
    batch_of, same_but_batches_and_journal, upserted_batches, BatchPhase, BatchState, JournalEntry,
    MigrationState,
};
use crate::paths::{join, join_paths};
use crate::text::{owned, push_str};

verus! {

/// How source files are removed. Implemented over the filesystem, and by test doubles;
/// nothing is assumed of the answers.
pub trait FileRemover {
    /// Whether a file is present at `path`.
    fn file_exists(&self, path: &str) -> bool;

    /// Removes the file at `path`, or gives the text of the error.
    fn remove_file(&self, path: &str) -> Result<(), String>;
}

/// `e` is a journal entry for `event` on batch `id` with context `context` (at any time).
pub open spec fn is_entry(e: JournalEntry, event: Seq<char>, id: Seq<char>, context: Seq<char>) -> bool {
    e.event@ == event && e.batch_id@ == id && e.context@ == context
}

pub open spec fn missing_state_text(id: Seq<char>) -> Seq<char> {
    "missing batch state for "@ + id + " before cleanup"@
}

pub open spec fn unverified_text() -> Seq<char> {
    "deletion blocked because verification did not pass"@
}

pub open spec fn unapproved_text() -> Seq<char> {
    "deletion blocked because batch is not approved"@
}

/// The batch state once its source files are deleted.
pub open spec fn deleted_state(bs: BatchState) -> BatchState {
    BatchState { deleted: true, phase: BatchPhase::DeleteCompleted, ..bs }
}

/// The batch state after a failed delete.
pub open spec fn delete_failed_state(bs: BatchState) -> BatchState {
    BatchState { phase: BatchPhase::Failed, deleted: false, ..bs }
}

/// The source paths of the files of `batch`, in file order: `source_root` joined with each
/// file's relative path.
pub open spec fn target_paths(batch: Batch, source_root: Seq<char>) -> Seq<Seq<char>> {
    batch.files@.map_values(|f: FileEntry| join(source_root, f.relative_path@))
}

/// The last step of a deletion, given whether (and at which file, with which message) a
/// removal failed: the new batch states, the journal entry written and the result.
pub open spec fn final_step(
    batch: Batch,
    source_root: Seq<char>,
    context: Seq<char>,
    bs: BatchState,
    old_batches: Seq<BatchState>,
    new_batches: Seq<BatchState>,
    last: JournalEntry,
    failure: Option<(usize, String)>,
    r: Result<(), CaravanError>,
) -> bool {
    match failure {
        None => {
            &&& r is Ok
            &&& new_batches == upserted_batches(old_batches, deleted_state(bs))
            &&& is_entry(last, "delete_completed"@, batch.id@, context)
        },
        Some((k, msg)) => {
            let path = target_paths(batch, source_root)[k as int];
            &&& r is Err
            &&& (r->Err_0 matches CaravanError::IoContext { context: c, source: m } && c@
                == "failed to delete source file "@ + path && m == msg)
            &&& new_batches == upserted_batches(old_batches, delete_failed_state(bs))
            &&& is_entry(last, "delete_failed"@, batch.id@, context + " | file="@ + path + " | error="@ + msg@)
        },
    }
}

/// `failure` names a file of `batch`, if any.
pub open spec fn failure_in_batch(batch: Batch, failure: Option<(usize, String)>) -> bool {
    match failure {
        Some((k, _)) => k < batch.files@.len(),
        None => true,
    }
}

/// What cleanup did to the state and what it returned, when it went as far as deleting, for
/// the removal failure `failure` (none, or the file and the message of the first failure):
/// the start is journaled, then the last step.
pub open spec fn deletion_outcome(
    batch: Batch,
    source_root: Seq<char>,
    context: Seq<char>,
    bs: BatchState,
    old_state: MigrationState,
    new_state: MigrationState,
    failure: Option<(usize, String)>,
    r: Result<(), CaravanError>,
) -> bool {
    let j = old_state.journal@;
    let nj = new_state.journal@;
    &&& failure_in_batch(batch, failure)
    &&& same_but_batches_and_journal(new_state, old_state)
    &&& nj.len() == j.len() + 2
    &&& nj.take(j.len() as int) == j
    &&& is_entry(nj[j.len() as int], "delete_started"@, batch.id@, context)
    &&& final_step(
        batch,
        source_root,
        context,
        bs,
        old_state.batches@,
        new_state.batches@,
        nj[j.len() + 1 as int],
        failure,
        r,
    )
}

fn entry(event: &str, batch_id: &str, context: String) -> (r: JournalEntry)
    ensures
        is_entry(r, event@, batch_id@, context@),
{
    JournalEntry {
        event: owned(event),
        batch_id: owned(batch_id),
        timestamp_unix_secs: now_unix_secs(),
        context,
    }
}

/// The paths handed to a remover for `batch`: `source_root` joined with each relative path,
/// in file order.
pub fn deletion_targets(batch: &Batch, source_root: &str) -> (r: Vec<String>)
    ensures
        r.deep_view() == target_paths(*batch, source_root@),
{
    let mut out: Vec<String> = Vec::new();
    let mut i: usize = 0;
    while i < batch.files.len()
        invariant
            i <= batch.files@.len(),
            out.deep_view() == target_paths(*batch, source_root@).take(i as int),
        decreases batch.files.len() - i,
    {
        let ghost prev = out.deep_view();
        let p = join_paths(source_root, batch.files[i].relative_path.as_str());
        out.push(p);
        assert(out.deep_view() =~= prev.push(p@));
        i = i + 1;
        assert(out.deep_view() =~= target_paths(*batch, source_root@).take(i as int));
    }
    assert(target_paths(*batch, source_root@).take(i as int) =~= target_paths(*batch, source_root@));
    out
}

/// Ends the deletion of `batch` once the removals are over: with no failure, marks the batch
/// deleted and journals `delete_completed`; with the first failure (file `k`, message `msg`),
/// marks the batch failed, journals `delete_failed` with the file's path and the message, and
/// returns the `IoContext` error naming that path.
pub fn finish_deletion(
    batch: &Batch,
    source_root: &str,
    state: &mut MigrationState,
    execution_context: &str,
    failure: Option<(usize, String)>,
) -> (r: Result<(), CaravanError>)
    requires
        batch_of(old(state).batches@, batch.id@) is Some,
        failure_in_batch(*batch, failure),
    ensures
        same_but_batches_and_journal(*final(state), *old(state)),
        final(state).journal@.len() == old(state).journal@.len() + 1,
        final(state).journal@.take(old(state).journal@.len() as int) == old(state).journal@,
        final_step(
            *batch,
            source_root@,
            execution_context@,
            batch_of(old(state).batches@, batch.id@)->0,
            old(state).batches@,
            final(state).batches@,
            final(state).journal@[old(state).journal@.len() as int],
            failure,
            r,
        ),
{
    let bs = match state.batch(batch.id.as_str()) {
        Some(b) => b.clone(),
        None => {
            return Ok(());
        },
    };
    let ghost before = *state;
    match failure {
        None => {
            let updated = BatchState { deleted: true, phase: BatchPhase::DeleteCompleted, ..bs };
            state.upsert_batch(updated);
            state.journal.push(entry("delete_completed", batch.id.as_str(), owned(execution_context)));
            assert(state.journal@.take(before.journal@.len() as int) =~= before.journal@);
            Ok(())
        },
        Some((k, msg)) => {
            let path = join_paths(source_root, batch.files[k].relative_path.as_str());
            assert(path@ == target_paths(*batch, source_root@)[k as int]);
            let failed = BatchState { phase: BatchPhase::Failed, deleted: false, ..bs };
            state.upsert_batch(failed);
            let mut ctx = owned(execution_context);
            push_str(&mut ctx, " | file=");
            push_str(&mut ctx, path.as_str());
            push_str(&mut ctx, " | error=");
            push_str(&mut ctx, msg.as_str());
            state.journal.push(entry("delete_failed", batch.id.as_str(), ctx));
            assert(state.journal@.take(before.journal@.len() as int) =~= before.journal@);
            let mut c = owned("failed to delete source file ");
            push_str(&mut c, path.as_str());
            Err(CaravanError::IoContext { context: c, source: msg })
        },
    }
}

/// What the deletion loop does after looking at file `i`.
#[derive(Debug)]
pub enum DeletionStep {
    /// Go on with the next file.
    Next,
    /// Stop: the removal of file `i` failed with this message.
    Stop(usize, String),
}

/// The step after file `i`, given whether the file is present and, if its removal was asked,
/// the remover's answer: an absent file is skipped (its removal is not asked, and any answer
/// is ignored), a removed file goes on, and a failed removal stops the deletion there.
pub fn deletion_step(i: usize, present: bool, removal: Option<Result<(), String>>) -> (r: DeletionStep)
    ensures
        r == (if present && (removal matches Some(Err(_))) {
            DeletionStep::Stop(i, removal->Some_0->Err_0)
        } else {
            DeletionStep::Next
        }),
{
    if !present {
        return DeletionStep::Next;
    }
    match removal {
        Some(Err(msg)) => DeletionStep::Stop(i, msg),
        _ => DeletionStep::Next,
    }
}

/// Deletes the source files of `batch` that are present under `source_root`, with `remover`.
/// Refuses (and changes nothing) when the state has no entry for the batch, or when the batch
/// is not verified or not approved for delete; does nothing for a batch already deleted.
/// Otherwise journals the start, then hands the paths of [`deletion_targets`], in file order,
/// to `remover.file_exists` and, for the present ones, to `remover.remove_file`, going on or
/// stopping as [`deletion_step`] decides; and ends with [`finish_deletion`] for the failure
/// it stopped at (if any).
pub fn cleanup_batch_with_remover(
    batch: &Batch,
    source_root: &str,
    state: &mut MigrationState,
    execution_context: &str,
    remover: &dyn FileRemover,
) -> (r: Result<(), CaravanError>)
    ensures
        match batch_of(old(state).batches@, batch.id@) {
            None => *final(state) == *old(state) && r is Err && (r->Err_0 matches CaravanError::StateCorrupt(m)
                && m@ == missing_state_text(batch.id@)),
            Some(bs) => if !bs.verification_passed {
                *final(state) == *old(state) && r is Err && (r->Err_0 matches CaravanError::PolicyBlocked(m)
                    && m@ == unverified_text())
            } else if !bs.approved_for_delete {
                *final(state) == *old(state) && r is Err && (r->Err_0 matches CaravanError::PolicyBlocked(m)
                    && m@ == unapproved_text())
            } else if bs.deleted {
                *final(state) == *old(state) && r is Ok
            } else {
                exists|failure: Option<(usize, String)>|
                    #[trigger] deletion_outcome(
                        *batch,
                        source_root@,
                        execution_context@,
                        bs,
                        *old(state),
                        *final(state),
                        failure,
                        r,
                    )
            },
        },
        r is Ok ==> (batch_of(old(state).batches@, batch.id@) matches Some(bs) && bs.verification_passed
            && bs.approved_for_delete),
{
    let bs = match state.batch(batch.id.as_str()) {
        Some(b) => b.clone(),
        None => {
            let mut m = owned("missing batch state for ");
            push_str(&mut m, batch.id.as_str());
            push_str(&mut m, " before cleanup");
            return Err(CaravanError::StateCorrupt(m));
        },
    };
    if !bs.verification_passed {
        return Err(CaravanError::PolicyBlocked(owned("deletion blocked because verification did not pass")));
    }
    if !bs.approved_for_delete {
        return Err(CaravanError::PolicyBlocked(owned("deletion blocked because batch is not approved")));
    }
    if bs.deleted {
        return Ok(());
    }
    let ghost old_state = *state;
    state.journal.push(entry("delete_started", batch.id.as_str(), owned(execution_context)));
    let ghost started = *state;
    let targets = deletion_targets(batch, source_root);
    assert(targets.deep_view().len() == targets@.len());
    let mut failure: Option<(usize, String)> = None;
    let mut i: usize = 0;
    while i < targets.len()
        invariant_except_break
            failure is None,
        invariant
            i <= targets@.len(),
            targets@.len() == batch.files@.len(),
            *state == started,
        ensures
            failure_in_batch(*batch, failure),
        decreases targets.len() - i,
    {
        let present = remover.file_exists(targets[i].as_str());
        let removal = if present {
            Some(remover.remove_file(targets[i].as_str()))
        } else {
            None
        };
        match deletion_step(i, present, removal) {
            DeletionStep::Stop(k, msg) => {
                failure = Some((k, msg));
                break;
            },
            DeletionStep::Next => {},
        }
        i = i + 1;
    }
    let ghost f = failure;
    proof {
        assert(targets.deep_view().len() == targets@.len());
    }
    let r = finish_deletion(batch, source_root, state, execution_context, failure);
    proof {
        assert(state.journal@.take(old_state.journal@.len() as int) =~= old_state.journal@);
        assert(state.journal@[old_state.journal@.len() as int] == started.journal@[old_state.journal@.len() as int]);
        assert(deletion_outcome(*batch, source_root@, execution_context@, bs, old_state, *state, f, r));
    }
    r
}

} // verus!
