use std::cell::RefCell;

use caravan::cleanup::{
    cleanup_batch_with_remover, deletion_step, deletion_targets, finish_deletion, DeletionStep, FileRemover,
};
use caravan::error::CaravanError;
use caravan::models::batch::Batch;
use caravan::models::file_entry::FileEntry;
use caravan::models::state::{BatchPhase, BatchState, MigrationState};

struct RecordingRemover {
    present: Vec<String>,
    fail_on: Option<String>,
    removed: RefCell<Vec<String>>,
}

impl RecordingRemover {
    fn new(present: &[&str], fail_on: Option<&str>) -> Self {
        Self {
            present: present.iter().map(|p| p.to_string()).collect(),
            fail_on: fail_on.map(|p| p.to_string()),
            removed: RefCell::new(Vec::new()),
        }
    }
}

impl FileRemover for RecordingRemover {
    fn file_exists(&self, path: &str) -> bool {
        self.present.iter().any(|p| p == path) && !self.removed.borrow().iter().any(|p| p == path)
    }

    fn remove_file(&self, path: &str) -> Result<(), String> {
        if self.fail_on.as_deref() == Some(path) {
            return Err("simulated delete failure".to_string());
        }
        self.removed.borrow_mut().push(path.to_string());
        Ok(())
    }
}

fn batch_with_files(id: &str, files: &[&str]) -> Batch {
    let file_entries: Vec<FileEntry> = files
        .iter()
        .map(|relative| FileEntry {
            relative_path: relative.to_string(),
            size_bytes: 1,
            modified_time: None,
        })
        .collect();

    Batch {
        id: id.to_string(),
        file_count: file_entries.len(),
        total_bytes: file_entries.len() as u64,
        files: file_entries,
    }
}

fn state_with_batch(id: &str, verification_passed: bool, approved_for_delete: bool, deleted: bool) -> MigrationState {
    let mut state = MigrationState::new("migrate", "/src", "/dst");
    state.upsert_batch(BatchState {
        batch_id: id.to_string(),
        phase: BatchPhase::VerifyCompleted,
        verification_passed,
        approved_for_delete,
        deleted,
    });
    state
}

#[test]
fn cleanup_requires_existing_batch_state() {
    let batch = batch_with_files("batch-1", &["a.txt"]);
    let mut state = MigrationState::new("migrate", "/src", "/dst");
    let remover = RecordingRemover::new(&[], None);

    let err = cleanup_batch_with_remover(&batch, "/root", &mut state, "ctx", &remover)
        .expect_err("missing batch state must fail");
    assert!(err.to_string().contains("missing batch state"));
}

#[test]
fn cleanup_blocks_when_verification_or_approval_are_missing() {
    let batch = batch_with_files("batch-1", &["a.txt"]);
    let remover = RecordingRemover::new(&["/root/a.txt"], None);

    let mut unverified = state_with_batch("batch-1", false, true, false);
    let err = cleanup_batch_with_remover(&batch, "/root", &mut unverified, "ctx", &remover)
        .expect_err("unverified batch must be blocked");
    assert!(err.to_string().contains("verification did not pass"));

    let mut unapproved = state_with_batch("batch-1", true, false, false);
    let err = cleanup_batch_with_remover(&batch, "/root", &mut unapproved, "ctx", &remover)
        .expect_err("unapproved batch must be blocked");
    assert!(err.to_string().contains("batch is not approved"));
    assert!(remover.removed.borrow().is_empty());
}

#[test]
fn cleanup_returns_ok_without_changes_when_batch_already_deleted() {
    let batch = batch_with_files("batch-1", &["a.txt"]);
    let mut state = state_with_batch("batch-1", true, true, true);
    let remover = RecordingRemover::new(&["/root/a.txt"], None);

    cleanup_batch_with_remover(&batch, "/root", &mut state, "ctx", &remover)
        .expect("already deleted should be a no-op");

    assert!(remover.removed.borrow().is_empty());
    assert!(state.journal.is_empty());
}

#[test]
fn cleanup_deletes_existing_files_and_marks_batch_completed() {
    let batch = batch_with_files("batch-1", &["dir/a.txt", "dir/b.txt", "dir/missing.txt"]);
    let mut state = state_with_batch("batch-1", true, true, false);
    let remover = RecordingRemover::new(&["/root/dir/a.txt", "/root/dir/b.txt"], None);

    cleanup_batch_with_remover(&batch, "/root", &mut state, "unit-test", &remover)
        .expect("cleanup should succeed");

    assert_eq!(remover.removed.borrow().len(), 2);
    let batch_state = state.batch("batch-1").expect("batch state");
    assert!(batch_state.deleted);
    assert_eq!(batch_state.phase, BatchPhase::DeleteCompleted);
    assert_eq!(state.journal.len(), 2);
    assert_eq!(state.journal[0].event, "delete_started");
    assert_eq!(state.journal[1].event, "delete_completed");
}

#[test]
fn cleanup_marks_batch_failed_and_records_journal_on_delete_error() {
    let batch = batch_with_files("batch-1", &["dir/a.txt"]);
    let mut state = state_with_batch("batch-1", true, true, false);
    let remover = RecordingRemover::new(&["/root/dir/a.txt"], Some("/root/dir/a.txt"));

    let err = cleanup_batch_with_remover(&batch, "/root", &mut state, "unit-test", &remover)
        .expect_err("delete failure should fail cleanup");
    assert!(err.to_string().contains("failed to delete source file"));

    let batch_state = state.batch("batch-1").expect("batch state");
    assert!(!batch_state.deleted);
    assert_eq!(batch_state.phase, BatchPhase::Failed);
    assert_eq!(state.journal.len(), 2);
    assert_eq!(state.journal[0].event, "delete_started");
    assert_eq!(state.journal[1].event, "delete_failed");
    assert_eq!(
        state.journal[1].context,
        "unit-test | file=/root/dir/a.txt | error=simulated delete failure"
    );
}

#[test]
fn deletion_targets_join_the_root_in_file_order() {
    let batch = batch_with_files("batch-1", &["b.txt", "dir/a.txt", "/abs.txt"]);
    assert_eq!(
        deletion_targets(&batch, "/root"),
        vec!["/root/b.txt".to_string(), "/root/dir/a.txt".to_string(), "/abs.txt".to_string()]
    );
}

#[test]
fn finish_deletion_without_failure_marks_deleted() {
    let batch = batch_with_files("batch-1", &["a.txt"]);
    let mut state = state_with_batch("batch-1", true, true, false);
    finish_deletion(&batch, "/root", &mut state, "ctx", None).expect("no failure");
    let b = state.batch("batch-1").expect("state");
    assert!(b.deleted);
    assert_eq!(b.phase, BatchPhase::DeleteCompleted);
    assert_eq!(state.journal.len(), 1);
    assert_eq!(state.journal[0].event, "delete_completed");
    assert_eq!(state.journal[0].context, "ctx");
}

#[test]
fn finish_deletion_with_failure_names_that_file() {
    let batch = batch_with_files("batch-1", &["a.txt", "b.txt"]);
    let mut state = state_with_batch("batch-1", true, true, false);
    let err = finish_deletion(&batch, "/root", &mut state, "ctx", Some((1, "denied".to_string())))
        .expect_err("failure");
    assert_eq!(
        err,
        CaravanError::IoContext {
            context: "failed to delete source file /root/b.txt".to_string(),
            source: "denied".to_string()
        }
    );
    let b = state.batch("batch-1").expect("state");
    assert!(!b.deleted);
    assert_eq!(b.phase, BatchPhase::Failed);
    assert_eq!(state.journal[0].event, "delete_failed");
    assert_eq!(state.journal[0].context, "ctx | file=/root/b.txt | error=denied");
}

#[test]
fn cleanup_stops_at_the_first_failed_removal() {
    let batch = batch_with_files("batch-1", &["a.txt", "b.txt", "c.txt"]);
    let mut state = state_with_batch("batch-1", true, true, false);
    let remover = RecordingRemover::new(&["/root/a.txt", "/root/b.txt", "/root/c.txt"], Some("/root/b.txt"));
    let err = cleanup_batch_with_remover(&batch, "/root", &mut state, "ctx", &remover).expect_err("fails");
    assert_eq!(
        err,
        CaravanError::IoContext {
            context: "failed to delete source file /root/b.txt".to_string(),
            source: "simulated delete failure".to_string()
        }
    );
    assert_eq!(*remover.removed.borrow(), vec!["/root/a.txt".to_string()]);
    assert_eq!(state.journal.len(), 2);
    assert_eq!(state.journal[1].event, "delete_failed");
}

#[test]
fn deletion_step_skips_absent_files_and_stops_at_a_failed_removal() {
    assert!(matches!(deletion_step(0, false, None), DeletionStep::Next));
    assert!(matches!(deletion_step(0, false, Some(Err("x".to_string()))), DeletionStep::Next));
    assert!(matches!(deletion_step(1, true, Some(Ok(()))), DeletionStep::Next));
    match deletion_step(2, true, Some(Err("denied".to_string()))) {
        DeletionStep::Stop(k, msg) => {
            assert_eq!(k, 2);
            assert_eq!(msg, "denied");
        }
        other => panic!("unexpected {other:?}"),
    }
}

#[test]
fn cleanup_skips_absent_files() {
    let batch = batch_with_files("batch-1", &["a.txt", "b.txt"]);
    let mut state = state_with_batch("batch-1", true, true, false);
    let remover = RecordingRemover::new(&["/root/b.txt"], None);
    cleanup_batch_with_remover(&batch, "/root", &mut state, "ctx", &remover).expect("deleted");
    assert_eq!(*remover.removed.borrow(), vec!["/root/b.txt".to_string()]);
    assert!(state.batch("batch-1").expect("state").deleted);
}
