//! The persisted migration state and the per-batch state machine.

use vstd::prelude::*;

use crate::config::CopyStrategy;
use crate::models::batch::Batch;
use crate::models::file_entry::FileEntry;

verus! {

/// Where the whole migration stands.
#[derive(Debug, Clone, Copy, PartialEq, Eq, Structural)]
pub enum MigrationPhase {
    NotStarted,
    Copying,
    Verifying,
    AwaitingDeletion,
    Completed,
    Failed,
}

/// Where one batch stands.
#[derive(Debug, Clone, Copy, PartialEq, Eq, Structural)]
pub enum BatchPhase {
    Planned,
    CopyStarted,
    CopyCompleted,
    VerifyCompleted,
    ApprovedForDelete,
    DeleteCompleted,
    SnapshotCompleted,
    Failed,
}

/// The recorded progress of one batch.
#[derive(Debug, PartialEq, Eq)]
pub struct BatchState {
    pub batch_id: String,
    pub phase: BatchPhase,
    pub verification_passed: bool,
    pub approved_for_delete: bool,
    pub deleted: bool,
}

impl Clone for BatchState {
    fn clone(&self) -> (r: Self)
        ensures
            r == *self,
    {
        BatchState {
            batch_id: self.batch_id.clone(),
            phase: self.phase,
            verification_passed: self.verification_passed,
            approved_for_delete: self.approved_for_delete,
            deleted: self.deleted,
        }
    }
}

/// One line of the audit journal.
#[derive(Debug, PartialEq, Eq)]
pub struct JournalEntry {
    pub event: String,
    pub batch_id: String,
    pub timestamp_unix_secs: u64,
    pub context: String,
}

impl Clone for JournalEntry {
    fn clone(&self) -> (r: Self)
        ensures
            r == *self,
    {
        JournalEntry {
            event: self.event.clone(),
            batch_id: self.batch_id.clone(),
            timestamp_unix_secs: self.timestamp_unix_secs,
            context: self.context.clone(),
        }
    }
}

/// A file of the immutable batch manifest.
#[derive(Debug, PartialEq, Eq)]
pub struct PlannedFile {
    pub relative_path: String,
    pub size_bytes: u64,
}

impl Clone for PlannedFile {
    fn clone(&self) -> (r: Self)
        ensures
            r == *self,
    {
        PlannedFile { relative_path: self.relative_path.clone(), size_bytes: self.size_bytes }
    }
}

/// A file that an earlier migration already completed, by content identity.
#[derive(Debug, PartialEq, Eq)]
pub struct CompletedFileIdentity {
    pub mode: String,
    pub relative_path: String,
    pub size_bytes: u64,
    pub blake3_hash: String,
}

impl Clone for CompletedFileIdentity {
    fn clone(&self) -> (r: Self)
        ensures
            r == *self,
    {
        CompletedFileIdentity {
            mode: self.mode.clone(),
            relative_path: self.relative_path.clone(),
            size_bytes: self.size_bytes,
            blake3_hash: self.blake3_hash.clone(),
        }
    }
}

/// A batch of the immutable manifest recorded when the plan was first made.
#[derive(Debug, PartialEq, Eq)]
pub struct PlannedBatch {
    pub batch_id: String,
    pub file_count: usize,
    pub total_bytes: u64,
    pub files: Vec<PlannedFile>,
}

/// The manifest file that stands for a planned file entry.
pub open spec fn planned_file_of(file: FileEntry) -> PlannedFile {
    PlannedFile { relative_path: file.relative_path, size_bytes: file.size_bytes }
}

/// The file entry that a manifest file stands for (its modification time is not recorded).
pub open spec fn file_entry_of(file: PlannedFile) -> FileEntry {
    FileEntry { relative_path: file.relative_path, size_bytes: file.size_bytes, modified_time: None }
}

impl PlannedBatch {
    /// Two manifest batches with the same identifier, counters and files.
    pub open spec fn same_as(self, other: PlannedBatch) -> bool {
        &&& self.batch_id == other.batch_id
        &&& self.file_count == other.file_count
        &&& self.total_bytes == other.total_bytes
        &&& self.files@ == other.files@
    }

    /// Whether this manifest batch records exactly `batch` (modification times aside).
    pub open spec fn records(self, batch: Batch) -> bool {
        &&& self.batch_id == batch.id
        &&& self.file_count == batch.file_count
        &&& self.total_bytes == batch.total_bytes
        &&& self.files@ == batch.files@.map_values(|f: FileEntry| planned_file_of(f))
    }

    /// Whether `batch` is what this manifest batch describes, with no modification times.
    pub open spec fn describes(self, batch: Batch) -> bool {
        &&& batch.id == self.batch_id
        &&& batch.file_count == self.file_count
        &&& batch.total_bytes == self.total_bytes
        &&& batch.files@ == self.files@.map_values(|f: PlannedFile| file_entry_of(f))
    }

    /// Records `batch` in the manifest, dropping modification times.
    pub fn from_batch(batch: &Batch) -> (r: Self)
        ensures
            r.records(*batch),
    {
        let mut files: Vec<PlannedFile> = Vec::new();
        let mut i: usize = 0;
        while i < batch.files.len()
            invariant
                i <= batch.files@.len(),
                files@ =~= batch.files@.take(i as int).map_values(|f: FileEntry| planned_file_of(f)),
            decreases batch.files.len() - i,
        {
            let file = &batch.files[i];
            files.push(PlannedFile {
                relative_path: file.relative_path.clone(),
                size_bytes: file.size_bytes,
            });
            i = i + 1;
            assert(batch.files@.take(i as int) =~= batch.files@.take(i - 1 as int).push(batch.files@[i - 1]));
        }
        assert(batch.files@.take(batch.files.len() as int) =~= batch.files@);
        PlannedBatch {
            batch_id: batch.id.clone(),
            file_count: batch.file_count,
            total_bytes: batch.total_bytes,
            files,
        }
    }

    /// Materializes the batch that this manifest entry describes.
    pub fn to_batch(&self) -> (r: Batch)
        ensures
            self.describes(r),
    {
        let mut files: Vec<FileEntry> = Vec::new();
        let mut i: usize = 0;
        while i < self.files.len()
            invariant
                i <= self.files@.len(),
                files@ =~= self.files@.take(i as int).map_values(|f: PlannedFile| file_entry_of(f)),
            decreases self.files.len() - i,
        {
            let file = &self.files[i];
            files.push(FileEntry {
                relative_path: file.relative_path.clone(),
                size_bytes: file.size_bytes,
                modified_time: None,
            });
            i = i + 1;
            assert(self.files@.take(i as int) =~= self.files@.take(i - 1 as int).push(self.files@[i - 1]));
        }
        assert(self.files@.take(self.files.len() as int) =~= self.files@);
        Batch {
            id: self.batch_id.clone(),
            file_count: self.file_count,
            total_bytes: self.total_bytes,
            files,
        }
    }
}

impl Clone for PlannedBatch {
    fn clone(&self) -> (r: Self)
        ensures
            r.same_as(*self),
    {
        let mut files: Vec<PlannedFile> = Vec::new();
        let mut i: usize = 0;
        while i < self.files.len()
            invariant
                i <= self.files@.len(),
                files@ =~= self.files@.take(i as int),
            decreases self.files.len() - i,
        {
            files.push(self.files[i].clone());
            i = i + 1;
            assert(self.files@.take(i as int) =~= self.files@.take(i - 1 as int).push(self.files@[i - 1]));
        }
        assert(self.files@.take(self.files.len() as int) =~= self.files@);
        PlannedBatch {
            batch_id: self.batch_id.clone(),
            file_count: self.file_count,
            total_bytes: self.total_bytes,
            files,
        }
    }
}

/// The identifiers of a sequence of batch states, in order.
pub open spec fn batch_ids(batches: Seq<BatchState>) -> Seq<Seq<char>> {
    batches.map_values(|b: BatchState| b.batch_id@)
}

/// The identifiers of a sequence of manifest batches, in order.
pub open spec fn planned_ids(batches: Seq<PlannedBatch>) -> Seq<Seq<char>> {
    batches.map_values(|b: PlannedBatch| b.batch_id@)
}

/// `i` is the first position of `id` in `ids`.
pub open spec fn is_first_index(ids: Seq<Seq<char>>, id: Seq<char>, i: int) -> bool {
    &&& 0 <= i < ids.len()
    &&& ids[i] == id
    &&& forall|j: int| 0 <= j < i ==> ids[j] != id
}

/// The first position of `id` in `ids`, or -1 when it does not occur.
pub open spec fn first_index(ids: Seq<Seq<char>>, id: Seq<char>) -> int {
    if exists|i: int| is_first_index(ids, id, i) {
        choose|i: int| is_first_index(ids, id, i)
    } else {
        -1
    }
}

/// The first position is unique.
pub proof fn lemma_first_index(ids: Seq<Seq<char>>, id: Seq<char>, i: int)
    requires
        is_first_index(ids, id, i),
    ensures
        first_index(ids, id) == i,
{
    let k = choose|k: int| is_first_index(ids, id, k);
    assert(is_first_index(ids, id, k));
    if k < i {
        assert(ids[k] != id);
    }
    if i < k {
        assert(ids[i] != id);
    }
}

/// An identifier that occurs nowhere has no first position.
pub proof fn lemma_first_index_absent(ids: Seq<Seq<char>>, id: Seq<char>)
    requires
        forall|i: int| 0 <= i < ids.len() ==> ids[i] != id,
    ensures
        first_index(ids, id) == -1,
{
}

/// Any occurrence implies a first position no later than it.
pub proof fn lemma_first_index_exists(ids: Seq<Seq<char>>, id: Seq<char>, i: int)
    requires
        0 <= i < ids.len(),
        ids[i] == id,
    ensures
        0 <= first_index(ids, id) <= i,
        is_first_index(ids, id, first_index(ids, id)),
    decreases i,
{
    if exists|j: int| 0 <= j < i && ids[j] == id {
        let j = choose|j: int| 0 <= j < i && ids[j] == id;
        lemma_first_index_exists(ids, id, j);
    } else {
        assert(is_first_index(ids, id, i));
        lemma_first_index(ids, id, i);
    }
}

/// The state recorded for batch `id`: the first entry with that identifier.
pub open spec fn batch_of(batches: Seq<BatchState>, id: Seq<char>) -> Option<BatchState> {
    let k = first_index(batch_ids(batches), id);
    if 0 <= k {
        Some(batches[k])
    } else {
        None
    }
}

/// The manifest recorded for batch `id`: the first entry with that identifier.
pub open spec fn planned_of(batches: Seq<PlannedBatch>, id: Seq<char>) -> Option<PlannedBatch> {
    let k = first_index(planned_ids(batches), id);
    if 0 <= k {
        Some(batches[k])
    } else {
        None
    }
}

/// `batches` after an insert-or-replace of `b` by identifier.
pub open spec fn upserted_batches(batches: Seq<BatchState>, b: BatchState) -> Seq<BatchState> {
    let k = first_index(batch_ids(batches), b.batch_id@);
    if 0 <= k {
        batches.update(k, b)
    } else {
        batches.push(b)
    }
}

/// The identifiers of the batches satisfying `pred`, in state order.
pub open spec fn ids_where(batches: Seq<BatchState>, pred: spec_fn(BatchState) -> bool) -> Seq<Seq<char>>
    decreases batches.len(),
{
    if batches.len() == 0 {
        Seq::empty()
    } else {
        let prev = ids_where(batches.drop_last(), pred);
        if pred(batches.last()) {
            prev.push(batches.last().batch_id@)
        } else {
            prev
        }
    }
}

/// Verified, not yet approved and not deleted: waits for delete approval.
pub open spec fn needs_approval(b: BatchState) -> bool {
    b.verification_passed && !b.approved_for_delete && !b.deleted
}

/// Approved for delete but not yet deleted.
pub open spec fn approved_not_deleted(b: BatchState) -> bool {
    b.approved_for_delete && !b.deleted
}

/// In `VerifyCompleted`, verified, not approved and not deleted.
pub open spec fn verified_and_ready(b: BatchState) -> bool {
    b.phase == BatchPhase::VerifyCompleted && b.verification_passed && !b.approved_for_delete
        && !b.deleted
}

/// The batch state after delete approval.
pub open spec fn approved(b: BatchState) -> BatchState {
    BatchState { approved_for_delete: true, phase: BatchPhase::ApprovedForDelete, ..b }
}

/// Whether position `k` is the first entry with its identifier.
pub open spec fn is_first_of_its_id(batches: Seq<BatchState>, k: int) -> bool {
    forall|j: int| 0 <= j < k ==> batches[j].batch_id@ != batches[k].batch_id@
}

/// `batches` after approving every identifier listed in `ids`.
pub open spec fn approved_batches(batches: Seq<BatchState>, ids: Seq<Seq<char>>) -> Seq<BatchState> {
    Seq::new(
        batches.len(),
        |k: int|
            if is_first_of_its_id(batches, k) && ids.contains(batches[k].batch_id@) {
                approved(batches[k])
            } else {
                batches[k]
            },
    )
}

/// The persisted state of one migration.
#[derive(Debug, Clone, PartialEq, Eq)]
pub struct MigrationState {
    pub mode: String,
    pub source: String,
    pub destination: String,
    pub batch_size_bytes: u64,
    pub max_files: Option<u64>,
    pub snapshot_every: Option<u32>,
    pub snapshot_dir: Option<String>,
    pub copy_strategy: CopyStrategy,
    pub planned_batches: Vec<PlannedBatch>,
    pub skipped_completed_files: Vec<CompletedFileIdentity>,
    pub migration_phase: MigrationPhase,
    pub last_successful_snapshot_name: Option<String>,
    pub batches: Vec<BatchState>,
    pub journal: Vec<JournalEntry>,
}

/// Everything but `batches` is equal.
pub open spec fn same_but_batches(a: MigrationState, b: MigrationState) -> bool {
    &&& a.mode == b.mode
    &&& a.source == b.source
    &&& a.destination == b.destination
    &&& a.batch_size_bytes == b.batch_size_bytes
    &&& a.max_files == b.max_files
    &&& a.snapshot_every == b.snapshot_every
    &&& a.snapshot_dir == b.snapshot_dir
    &&& a.copy_strategy == b.copy_strategy
    &&& a.planned_batches@ == b.planned_batches@
    &&& a.skipped_completed_files@ == b.skipped_completed_files@
    &&& a.migration_phase == b.migration_phase
    &&& a.last_successful_snapshot_name == b.last_successful_snapshot_name
    &&& a.journal@ == b.journal@
}

/// Everything but `batches` and `journal` is equal.
pub open spec fn same_but_batches_and_journal(a: MigrationState, b: MigrationState) -> bool {
    &&& a.mode == b.mode
    &&& a.source == b.source
    &&& a.destination == b.destination
    &&& a.batch_size_bytes == b.batch_size_bytes
    &&& a.max_files == b.max_files
    &&& a.snapshot_every == b.snapshot_every
    &&& a.snapshot_dir == b.snapshot_dir
    &&& a.copy_strategy == b.copy_strategy
    &&& a.planned_batches@ == b.planned_batches@
    &&& a.skipped_completed_files@ == b.skipped_completed_files@
    &&& a.migration_phase == b.migration_phase
    &&& a.last_successful_snapshot_name == b.last_successful_snapshot_name
}

/// Everything but `planned_batches` is equal.
pub open spec fn same_but_planned(a: MigrationState, b: MigrationState) -> bool {
    &&& a.mode == b.mode
    &&& a.source == b.source
    &&& a.destination == b.destination
    &&& a.batch_size_bytes == b.batch_size_bytes
    &&& a.max_files == b.max_files
    &&& a.snapshot_every == b.snapshot_every
    &&& a.snapshot_dir == b.snapshot_dir
    &&& a.copy_strategy == b.copy_strategy
    &&& a.batches@ == b.batches@
    &&& a.skipped_completed_files@ == b.skipped_completed_files@
    &&& a.migration_phase == b.migration_phase
    &&& a.last_successful_snapshot_name == b.last_successful_snapshot_name
    &&& a.journal@ == b.journal@
}

/// Position of the first batch state with identifier `key`.
fn find_batch_pos(batches: &Vec<BatchState>, key: &String) -> (r: Option<usize>)
    ensures
        match r {
            Some(i) => is_first_index(batch_ids(batches@), key@, i as int) && first_index(
                batch_ids(batches@),
                key@,
            ) == i,
            None => first_index(batch_ids(batches@), key@) == -1 && forall|i: int|
                0 <= i < batches@.len() ==> batches@[i].batch_id@ != key@,
        },
{
    let mut i: usize = 0;
    while i < batches.len()
        invariant
            i <= batches@.len(),
            forall|j: int| 0 <= j < i ==> batches@[j].batch_id@ != key@,
        decreases batches.len() - i,
    {
        if batches[i].batch_id == *key {
            proof {
                assert(is_first_index(batch_ids(batches@), key@, i as int));
                lemma_first_index(batch_ids(batches@), key@, i as int);
            }
            return Some(i);
        }
        i = i + 1;
    }
    proof {
        lemma_first_index_absent(batch_ids(batches@), key@);
    }
    None
}

/// Position of the first manifest batch with identifier `key`.
fn find_planned_pos(batches: &Vec<PlannedBatch>, key: &String) -> (r: Option<usize>)
    ensures
        match r {
            Some(i) => is_first_index(planned_ids(batches@), key@, i as int) && first_index(
                planned_ids(batches@),
                key@,
            ) == i,
            None => first_index(planned_ids(batches@), key@) == -1,
        },
{
    let mut i: usize = 0;
    while i < batches.len()
        invariant
            i <= batches@.len(),
            forall|j: int| 0 <= j < i ==> batches@[j].batch_id@ != key@,
        decreases batches.len() - i,
    {
        if batches[i].batch_id == *key {
            proof {
                assert(is_first_index(planned_ids(batches@), key@, i as int));
                lemma_first_index(planned_ids(batches@), key@, i as int);
            }
            return Some(i);
        }
        i = i + 1;
    }
    proof {
        lemma_first_index_absent(planned_ids(batches@), key@);
    }
    None
}

impl MigrationState {
    /// A fresh state for a migration that has not started.
    pub fn new(mode: &str, source: &str, destination: &str) -> (r: Self)
        ensures
            r.mode@ == mode@,
            r.source@ == source@,
            r.destination@ == destination@,
            r.batch_size_bytes == 0,
            r.max_files is None,
            r.snapshot_every is None,
            r.snapshot_dir is None,
            r.copy_strategy == CopyStrategy::Auto,
            r.planned_batches@.len() == 0,
            r.skipped_completed_files@.len() == 0,
            r.migration_phase == MigrationPhase::NotStarted,
            r.last_successful_snapshot_name is None,
            r.batches@.len() == 0,
            r.journal@.len() == 0,
    {
        MigrationState {
            mode: String::from_str(mode),
            source: String::from_str(source),
            destination: String::from_str(destination),
            batch_size_bytes: 0,
            max_files: None,
            snapshot_every: None,
            snapshot_dir: None,
            copy_strategy: CopyStrategy::Auto,
            planned_batches: Vec::new(),
            skipped_completed_files: Vec::new(),
            migration_phase: MigrationPhase::NotStarted,
            last_successful_snapshot_name: None,
            batches: Vec::new(),
            journal: Vec::new(),
        }
    }

    /// Brings lookup structures up to date after the batch lists were edited
    /// directly. Lookups here always scan the lists themselves, so the state
    /// is left as it is.
    pub fn rebuild_indexes(&mut self)
        ensures
            *final(self) == *old(self),
    {
    }

    /// The state recorded for batch `batch_id`, if any.
    pub fn batch(&self, batch_id: &str) -> (r: Option<&BatchState>)
        ensures
            match r {
                Some(b) => batch_of(self.batches@, batch_id@) == Some(*b),
                None => batch_of(self.batches@, batch_id@) is None,
            },
    {
        let key = String::from_str(batch_id);
        match find_batch_pos(&self.batches, &key) {
            Some(i) => Some(&self.batches[i]),
            None => None,
        }
    }

    /// Position in `batches` of the state recorded for `batch_id`, if any.
    pub fn batch_position(&self, batch_id: &str) -> (r: Option<usize>)
        ensures
            match r {
                Some(i) => first_index(batch_ids(self.batches@), batch_id@) == i && i
                    < self.batches@.len(),
                None => first_index(batch_ids(self.batches@), batch_id@) == -1,
            },
    {
        let key = String::from_str(batch_id);
        find_batch_pos(&self.batches, &key)
    }

    /// Mutable access to the state recorded for `batch_id`, if any.
    pub fn batch_mut(&mut self, batch_id: &str) -> (r: Option<&mut BatchState>)
        ensures
            match r {
                Some(b) => {
                    let k = first_index(batch_ids(old(self).batches@), batch_id@);
                    &&& 0 <= k < old(self).batches@.len()
                    &&& *b == old(self).batches@[k]
                    &&& final(self).batches@ == old(self).batches@.update(k, *final(b))
                    &&& same_but_batches(*final(self), *old(self))
                },
                None => first_index(batch_ids(old(self).batches@), batch_id@) == -1 && *final(self)
                    == *old(self),
            },
    {
        let key = String::from_str(batch_id);
        match find_batch_pos(&self.batches, &key) {
            Some(i) => Some(&mut self.batches[i]),
            None => None,
        }
    }

    /// Inserts `batch`, or replaces the state already recorded under its identifier.
    pub fn upsert_batch(&mut self, batch: BatchState)
        ensures
            final(self).batches@ == upserted_batches(old(self).batches@, batch),
            same_but_batches(*final(self), *old(self)),
    {
        match find_batch_pos(&self.batches, &batch.batch_id) {
            Some(i) => {
                self.batches.set(i, batch);
            }
            None => {
                self.batches.push(batch);
            }
        }
    }

    /// Inserts `planned_batch` into the manifest, or replaces the entry with its identifier.
    pub fn upsert_planned_batch(&mut self, planned_batch: PlannedBatch)
        ensures
            ({
                let k = first_index(planned_ids(old(self).planned_batches@), planned_batch.batch_id@);
                final(self).planned_batches@ == if 0 <= k {
                    old(self).planned_batches@.update(k, planned_batch)
                } else {
                    old(self).planned_batches@.push(planned_batch)
                }
            }),
            same_but_planned(*final(self), *old(self)),
    {
        match find_planned_pos(&self.planned_batches, &planned_batch.batch_id) {
            Some(i) => {
                self.planned_batches.set(i, planned_batch);
            }
            None => {
                self.planned_batches.push(planned_batch);
            }
        }
    }

    /// The manifest entry recorded for `batch_id`, if any.
    pub fn planned_batch(&self, batch_id: &str) -> (r: Option<&PlannedBatch>)
        ensures
            match r {
                Some(b) => planned_of(self.planned_batches@, batch_id@) == Some(*b),
                None => planned_of(self.planned_batches@, batch_id@) is None,
            },
    {
        let key = String::from_str(batch_id);
        match find_planned_pos(&self.planned_batches, &key) {
            Some(i) => Some(&self.planned_batches[i]),
            None => None,
        }
    }

    /// The batch described by the manifest entry for `batch_id`, if any.
    pub fn materialize_planned_batch(&self, batch_id: &str) -> (r: Option<Batch>)
        ensures
            match planned_of(self.planned_batches@, batch_id@) {
                Some(p) => r is Some && p.describes(r->0),
                None => r is None,
            },
    {
        match self.planned_batch(batch_id) {
            Some(p) => Some(p.to_batch()),
            None => None,
        }
    }

    /// Identifiers of verified batches that still wait for delete approval.
    pub fn batches_needing_approval(&self) -> (r: Vec<String>)
        ensures
            r.deep_view() == ids_where(self.batches@, |b: BatchState| needs_approval(b)),
    {
        let mut out: Vec<String> = Vec::new();
        let mut i: usize = 0;
        while i < self.batches.len()
            invariant
                i <= self.batches@.len(),
                out.deep_view() == ids_where(self.batches@.take(i as int), |b: BatchState| needs_approval(b)),
            decreases self.batches.len() - i,
        {
            let b = &self.batches[i];
            assert(self.batches@.take(i + 1 as int).drop_last() =~= self.batches@.take(i as int));
            if b.verification_passed && !b.approved_for_delete && !b.deleted {
                out.push(b.batch_id.clone());
            }
            i = i + 1;
            assert(out.deep_view() =~= ids_where(self.batches@.take(i as int), |b: BatchState| needs_approval(b)));
        }
        assert(self.batches@.take(self.batches.len() as int) =~= self.batches@);
        out
    }

    /// Identifiers of batches approved for delete but not yet deleted.
    pub fn batches_approved_but_not_deleted(&self) -> (r: Vec<String>)
        ensures
            r.deep_view() == ids_where(self.batches@, |b: BatchState| approved_not_deleted(b)),
    {
        let mut out: Vec<String> = Vec::new();
        let mut i: usize = 0;
        while i < self.batches.len()
            invariant
                i <= self.batches@.len(),
                out.deep_view() == ids_where(self.batches@.take(i as int), |b: BatchState| approved_not_deleted(b)),
            decreases self.batches.len() - i,
        {
            let b = &self.batches[i];
            assert(self.batches@.take(i + 1 as int).drop_last() =~= self.batches@.take(i as int));
            if b.approved_for_delete && !b.deleted {
                out.push(b.batch_id.clone());
            }
            i = i + 1;
            assert(out.deep_view() =~= ids_where(self.batches@.take(i as int), |b: BatchState| approved_not_deleted(b)));
        }
        assert(self.batches@.take(self.batches.len() as int) =~= self.batches@);
        out
    }

    /// Identifiers of batches in `VerifyCompleted` that passed and await approval.
    pub fn batches_verified_and_ready(&self) -> (r: Vec<String>)
        ensures
            r.deep_view() == ids_where(self.batches@, |b: BatchState| verified_and_ready(b)),
    {
        let mut out: Vec<String> = Vec::new();
        let mut i: usize = 0;
        while i < self.batches.len()
            invariant
                i <= self.batches@.len(),
                out.deep_view() == ids_where(self.batches@.take(i as int), |b: BatchState| verified_and_ready(b)),
            decreases self.batches.len() - i,
        {
            let b = &self.batches[i];
            assert(self.batches@.take(i + 1 as int).drop_last() =~= self.batches@.take(i as int));
            if b.phase == BatchPhase::VerifyCompleted && b.verification_passed
                && !b.approved_for_delete && !b.deleted {
                out.push(b.batch_id.clone());
            }
            i = i + 1;
            assert(out.deep_view() =~= ids_where(self.batches@.take(i as int), |b: BatchState| verified_and_ready(b)));
        }
        assert(self.batches@.take(self.batches.len() as int) =~= self.batches@);
        out
    }

    /// Marks every listed batch approved for delete.
    pub fn approve_batches(&mut self, batch_ids: &Vec<String>)
        ensures
            final(self).batches@ == approved_batches(old(self).batches@, batch_ids.deep_view()),
            same_but_batches(*final(self), *old(self)),
    {
        let ghost orig = self.batches@;
        let mut i: usize = 0;
        assert(self.batches@ =~= approved_batches(orig, batch_ids.deep_view().take(0)));
        while i < batch_ids.len()
            invariant
                i <= batch_ids@.len(),
                self.batches@.len() == orig.len(),
                forall|k: int| 0 <= k < orig.len() ==> #[trigger] self.batches@[k].batch_id@ == orig[k].batch_id@,
                self.batches@ =~= approved_batches(orig, batch_ids.deep_view().take(i as int)),
                same_but_batches(*self, *old(self)),
            decreases batch_ids.len() - i,
        {
            let ghost before = self.batches@;
            assert forall|j: int| 0 <= j < orig.len() implies before[j].batch_id@ == orig[j].batch_id@ by {
                assert(self.batches@[j].batch_id@ == orig[j].batch_id@);
            }
            let ghost seen = batch_ids.deep_view().take(i as int);
            let ghost seen_next = batch_ids.deep_view().take(i + 1 as int);
            assert(seen_next =~= seen.push(batch_ids[i as int]@));
            match find_batch_pos(&self.batches, &batch_ids[i]) {
                Some(p) => {
                    let mut b = self.batches[p].clone();
                    b.approved_for_delete = true;
                    b.phase = BatchPhase::ApprovedForDelete;
                    self.batches.set(p, b);
                    proof {
                        assert forall|k: int| 0 <= k < orig.len() implies
                            #[trigger] self.batches@[k] == approved_batches(orig, seen_next)[k] by {
                            assert(is_first_of_its_id(orig, k) == is_first_of_its_id(before, k)) by {
                                assert forall|j: int| 0 <= j < k implies (orig[j].batch_id@ != orig[k].batch_id@) == (before[j].batch_id@ != before[k].batch_id@) by {
                                    assert(before[j].batch_id@ == orig[j].batch_id@);
                                    assert(before[k].batch_id@ == orig[k].batch_id@);
                                }
                            }
                            if k == p {
                                assert forall|j: int| 0 <= j < k implies before[j].batch_id@ != before[k].batch_id@ by {
                                    assert(crate::models::state::batch_ids(before)[j] == before[j].batch_id@);
                                }
                                assert(is_first_of_its_id(before, k));
                                assert(seen_next.contains(orig[k].batch_id@)) by {
                                    assert(seen_next[i as int] == orig[k].batch_id@);
                                }
                            } else {
                                if is_first_of_its_id(orig, k) && orig[k].batch_id@ == batch_ids[i as int]@ {
                                    assert(before[k].batch_id@ == batch_ids@[i as int]@);
                                    assert(crate::models::state::batch_ids(before)[p as int] == before[p as int].batch_id@);
                                    if k < p {
                                        assert(crate::models::state::batch_ids(before)[k] == before[k].batch_id@);
                                    } else {
                                        assert(before[p as int].batch_id@ != before[k].batch_id@);
                                    }
                                    assert(false);
                                }
                                if seen_next.contains(orig[k].batch_id@) && !seen.contains(orig[k].batch_id@) {
                                    let w = choose|w: int| 0 <= w < seen_next.len() && seen_next[w] == orig[k].batch_id@;
                                    assert(w == i);
                                }
                                if seen.contains(orig[k].batch_id@) {
                                    let w = choose|w: int| 0 <= w < seen.len() && seen[w] == orig[k].batch_id@;
                                    assert(seen_next[w] == orig[k].batch_id@);
                                }
                            }
                        }
                    }
                }
                None => {
                    proof {
                        assert forall|k: int| 0 <= k < orig.len() implies
                            #[trigger] self.batches@[k] == approved_batches(orig, seen_next)[k] by {
                            assert(is_first_of_its_id(orig, k) == is_first_of_its_id(before, k)) by {
                                assert forall|j: int| 0 <= j < k implies (orig[j].batch_id@ != orig[k].batch_id@) == (before[j].batch_id@ != before[k].batch_id@) by {
                                    assert(before[j].batch_id@ == orig[j].batch_id@);
                                    assert(before[k].batch_id@ == orig[k].batch_id@);
                                }
                            }
                            if seen_next.contains(orig[k].batch_id@) && !seen.contains(orig[k].batch_id@) {
                                let w = choose|w: int| 0 <= w < seen_next.len() && seen_next[w] == orig[k].batch_id@;
                                assert(w == i);
                                assert(before[k].batch_id@ != batch_ids@[i as int]@);
                            }
                            if seen.contains(orig[k].batch_id@) {
                                let w = choose|w: int| 0 <= w < seen.len() && seen[w] == orig[k].batch_id@;
                                assert(seen_next[w] == orig[k].batch_id@);
                            }
                        }
                    }
                }
            }
            i = i + 1;
        }
        assert(batch_ids.deep_view().take(batch_ids.len() as int) =~= batch_ids.deep_view());
    }
}

} // verus!
