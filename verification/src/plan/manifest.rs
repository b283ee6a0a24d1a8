//! The immutable batch manifest, and the check of a fresh plan against it
//! that detects drift of the source between runs.

use vstd::prelude::*;

use crate::error::CaravanError;
use crate::models::batch::Batch;
use crate::models::file_entry::FileEntry;
use crate::models::state::{planned_file_of, PlannedBatch, PlannedFile};
use crate::paths::{components, same_path};
use crate::plan::batching::is_invalid_args;
use crate::plan::types::PlanningSnapshot;
use crate::text::{decimal, owned, push_decimal_str, push_str, str_eq};

verus! {

/// Records every batch of `snapshot` in the manifest, in order.
pub fn planned_batches_from_snapshot(snapshot: &PlanningSnapshot) -> (r: Vec<PlannedBatch>)
    ensures
        r@.len() == snapshot.batches@.len(),
        forall|k: int| 0 <= k < r@.len() ==> (#[trigger] r@[k]).records(snapshot.batches@[k]),
{
    let mut out: Vec<PlannedBatch> = Vec::new();
    let mut i: usize = 0;
    while i < snapshot.batches.len()
        invariant
            i <= snapshot.batches@.len(),
            out@.len() == i,
            forall|k: int| 0 <= k < i ==> (#[trigger] out@[k]).records(snapshot.batches@[k]),
        decreases snapshot.batches.len() - i,
    {
        out.push(PlannedBatch::from_batch(&snapshot.batches[i]));
        i = i + 1;
    }
    out
}

/// The position of the last manifest batch named `id`, or -1 when there is none
/// (a later entry with the same identifier shadows an earlier one).
pub open spec fn last_with_id(manifest: Seq<PlannedBatch>, id: Seq<char>) -> int
    decreases manifest.len(),
{
    if manifest.len() == 0 {
        -1
    } else if manifest.last().batch_id@ == id {
        manifest.len() - 1
    } else {
        last_with_id(manifest.drop_last(), id)
    }
}

/// The position found for an identifier holds that identifier, and no later entry does.
pub proof fn lemma_last_with_id(manifest: Seq<PlannedBatch>, id: Seq<char>)
    ensures
        -1 <= last_with_id(manifest, id) < manifest.len(),
        last_with_id(manifest, id) >= 0 ==> manifest[last_with_id(manifest, id)].batch_id@ == id,
        last_with_id(manifest, id) == -1 ==> forall|j: int|
            0 <= j < manifest.len() ==> (#[trigger] manifest[j]).batch_id@ != id,
        forall|j: int|
            last_with_id(manifest, id) < j < manifest.len() ==> (#[trigger] manifest[j]).batch_id@ != id,
    decreases manifest.len(),
{
    if manifest.len() > 0 && manifest.last().batch_id@ != id {
        lemma_last_with_id(manifest.drop_last(), id);
        assert forall|j: int| 0 <= j < manifest.len() - 1 implies manifest.drop_last()[j] == manifest[j] by {}
    }
}

/// Whether some batch of `current` is named `id`.
pub open spec fn has_batch_id(current: Seq<Batch>, id: Seq<char>) -> bool {
    exists|k: int| 0 <= k < current.len() && (#[trigger] current[k]).id@ == id
}

pub open spec fn count_changed_text(state: nat, current: nat) -> Seq<char> {
    "source drift detected: planned manifest batch count changed (state="@ + decimal(state)
        + ", current="@ + decimal(current) + ")"@
}

pub open spec fn unknown_id_text(id: Seq<char>) -> Seq<char> {
    "source drift detected: current plan contains unknown batch id "@ + id
}

pub open spec fn metadata_changed_text(id: Seq<char>, p: PlannedBatch, b: Batch) -> Seq<char> {
    "source drift detected for "@ + id + ": batch metadata changed (files "@ + decimal(
        p.file_count as nat,
    ) + "->"@ + decimal(b.file_count as nat) + ", bytes "@ + decimal(p.total_bytes as nat) + "->"@
        + decimal(b.total_bytes as nat) + ")"@
}

pub open spec fn length_changed_text(id: Seq<char>, state: nat, current: nat) -> Seq<char> {
    "source drift detected for "@ + id + ": file list length changed (state="@ + decimal(state)
        + ", current="@ + decimal(current) + ")"@
}

pub open spec fn path_changed_text(id: Seq<char>, index: nat, state: Seq<char>, current: Seq<char>) -> Seq<
    char,
> {
    "source drift detected for "@ + id + " at file #"@ + decimal(index) + ": path changed (state='"@
        + state + "', current='"@ + current + "')"@
}

pub open spec fn size_changed_text(id: Seq<char>, path: Seq<char>, state: nat, current: nat) -> Seq<char> {
    "source drift detected for "@ + id + " at "@ + path + ": size changed (state="@ + decimal(state)
        + ", current="@ + decimal(current) + ")"@
}

pub open spec fn stale_id_text(id: Seq<char>) -> Seq<char> {
    "source drift detected: persisted manifest contains stale batch id "@ + id
}

/// The first difference between the recorded files and the current files of batch `id`,
/// looking from file `i` on. Paths are compared as paths, component by component.
pub open spec fn file_drift(id: Seq<char>, state: Seq<PlannedFile>, current: Seq<FileEntry>, i: nat) -> Option<
    Seq<char>,
>
    decreases state.len() - i,
{
    if i < state.len() && i < current.len() {
        let p = state[i as int];
        let c = current[i as int];
        if components(p.relative_path@) != components(c.relative_path@) {
            Some(path_changed_text(id, i, p.relative_path@, c.relative_path@))
        } else if p.size_bytes != c.size_bytes {
            Some(size_changed_text(id, c.relative_path@, p.size_bytes as nat, c.size_bytes as nat))
        } else {
            file_drift(id, state, current, i + 1)
        }
    } else {
        None
    }
}

/// The first manifest batch, from position `j` on, whose identifier the current plan lacks.
pub open spec fn stale_drift(manifest: Seq<PlannedBatch>, current: Seq<Batch>, j: nat) -> Option<Seq<char>>
    decreases manifest.len() - j,
{
    if j < manifest.len() {
        if !has_batch_id(current, manifest[j as int].batch_id@) {
            Some(stale_id_text(manifest[j as int].batch_id@))
        } else {
            stale_drift(manifest, current, j + 1)
        }
    } else {
        None
    }
}

/// The first drift found checking current batch `k` and those after it against the manifest,
/// then the manifest against the current identifiers.
pub open spec fn batch_drift(manifest: Seq<PlannedBatch>, current: Seq<Batch>, k: nat) -> Option<Seq<char>>
    decreases current.len() - k,
{
    if k < current.len() {
        let b = current[k as int];
        let j = last_with_id(manifest, b.id@);
        if j < 0 {
            Some(unknown_id_text(b.id@))
        } else {
            let p = manifest[j];
            if p.file_count != b.file_count || p.total_bytes != b.total_bytes {
                Some(metadata_changed_text(b.id@, p, b))
            } else if p.files@.len() != b.files@.len() {
                Some(length_changed_text(b.id@, p.files@.len(), b.files@.len()))
            } else {
                match file_drift(b.id@, p.files@, b.files@, 0) {
                    Some(t) => Some(t),
                    None => batch_drift(manifest, current, k + 1),
                }
            }
        }
    } else {
        stale_drift(manifest, current, 0)
    }
}

/// The drift between a persisted manifest and the batches of a fresh plan, if any.
pub open spec fn manifest_drift(manifest: Seq<PlannedBatch>, current: Seq<Batch>) -> Option<Seq<char>> {
    if manifest.len() != current.len() {
        Some(count_changed_text(manifest.len(), current.len()))
    } else {
        batch_drift(manifest, current, 0)
    }
}

fn find_last_with_id(manifest: &Vec<PlannedBatch>, id: &str) -> (r: Option<usize>)
    ensures
        match r {
            Some(j) => j as int == last_with_id(manifest@, id@) && j < manifest@.len(),
            None => last_with_id(manifest@, id@) == -1,
        },
{
    let mut found: Option<usize> = None;
    let mut i: usize = 0;
    while i < manifest.len()
        invariant
            i <= manifest@.len(),
            match found {
                Some(j) => j as int == last_with_id(manifest@.take(i as int), id@) && j < i,
                None => last_with_id(manifest@.take(i as int), id@) == -1,
            },
        decreases manifest.len() - i,
    {
        assert(manifest@.take(i + 1 as int).drop_last() =~= manifest@.take(i as int));
        if str_eq(manifest[i].batch_id.as_str(), id) {
            found = Some(i);
        }
        i = i + 1;
    }
    assert(manifest@.take(manifest@.len() as int) =~= manifest@);
    found
}

fn contains_batch_id(current: &Vec<Batch>, id: &str) -> (r: bool)
    ensures
        r == has_batch_id(current@, id@),
{
    let mut i: usize = 0;
    while i < current.len()
        invariant
            i <= current@.len(),
            forall|k: int| 0 <= k < i ==> (#[trigger] current@[k]).id@ != id@,
        decreases current.len() - i,
    {
        if str_eq(current[i].id.as_str(), id) {
            assert(current@[i as int].id@ == id@);
            return true;
        }
        i = i + 1;
    }
    false
}

fn invalid(text: String) -> (r: CaravanError)
    ensures
        is_invalid_args(r, text@),
{
    CaravanError::InvalidArguments(text)
}

fn drift_prefix_for(id: &str) -> (r: String)
    ensures
        r@ == "source drift detected for "@ + id@,
{
    let mut out = owned("source drift detected for ");
    push_str(&mut out, id);
    out
}

fn check_files(id: &str, state: &Vec<PlannedFile>, current: &Vec<FileEntry>) -> (r: Result<(), String>)
    requires
        state@.len() == current@.len(),
    ensures
        match file_drift(id@, state@, current@, 0) {
            Some(t) => r is Err && r->Err_0@ == t,
            None => r is Ok,
        },
{
    let mut i: usize = 0;
    while i < state.len()
        invariant
            i <= state@.len(),
            state@.len() == current@.len(),
            file_drift(id@, state@, current@, 0) == file_drift(id@, state@, current@, i as nat),
        decreases state.len() - i,
    {
        let p = &state[i];
        let c = &current[i];
        if !same_path(p.relative_path.as_str(), c.relative_path.as_str()) {
            let mut out = drift_prefix_for(id);
            push_str(&mut out, " at file #");
            push_decimal_str(&mut out, i as u64);
            push_str(&mut out, ": path changed (state='");
            push_str(&mut out, p.relative_path.as_str());
            push_str(&mut out, "', current='");
            push_str(&mut out, c.relative_path.as_str());
            push_str(&mut out, "')");
            assert(out@ =~= path_changed_text(id@, i as nat, p.relative_path@, c.relative_path@));
            return Err(out);
        }
        if p.size_bytes != c.size_bytes {
            let mut out = drift_prefix_for(id);
            push_str(&mut out, " at ");
            push_str(&mut out, c.relative_path.as_str());
            push_str(&mut out, ": size changed (state=");
            push_decimal_str(&mut out, p.size_bytes);
            push_str(&mut out, ", current=");
            push_decimal_str(&mut out, c.size_bytes);
            push_str(&mut out, ")");
            assert(out@ =~= size_changed_text(id@, c.relative_path@, p.size_bytes as nat, c.size_bytes as nat));
            return Err(out);
        }
        i = i + 1;
    }
    Ok(())
}

/// Checks the batches of a fresh plan against the persisted manifest and reports the first
/// drift of the source: a changed batch count, an unknown or stale batch identifier, changed
/// batch counters, a changed file list length, or a changed path or size of a file.
pub fn ensure_manifest_matches_snapshot(
    persisted_manifest: &Vec<PlannedBatch>,
    current_snapshot: &PlanningSnapshot,
) -> (r: Result<(), CaravanError>)
    ensures
        match manifest_drift(persisted_manifest@, current_snapshot.batches@) {
            Some(t) => r is Err && is_invalid_args(r->Err_0, t),
            None => r is Ok,
        },
{
    let manifest = persisted_manifest;
    let batches = &current_snapshot.batches;
    if manifest.len() != batches.len() {
        let mut out = owned("source drift detected: planned manifest batch count changed (state=");
        push_decimal_str(&mut out, manifest.len() as u64);
        push_str(&mut out, ", current=");
        push_decimal_str(&mut out, batches.len() as u64);
        push_str(&mut out, ")");
        assert(out@ =~= count_changed_text(manifest@.len(), batches@.len()));
        return Err(invalid(out));
    }
    let mut k: usize = 0;
    while k < batches.len()
        invariant
            k <= batches@.len(),
            manifest@ == persisted_manifest@,
            batches@ == current_snapshot.batches@,
            manifest@.len() == batches@.len(),
            manifest_drift(manifest@, batches@) == batch_drift(manifest@, batches@, k as nat),
        decreases batches.len() - k,
    {
        let b = &batches[k];
        proof {
            lemma_last_with_id(manifest@, b.id@);
        }
        match find_last_with_id(manifest, b.id.as_str()) {
            None => {
                let mut out = owned("source drift detected: current plan contains unknown batch id ");
                push_str(&mut out, b.id.as_str());
                assert(out@ =~= unknown_id_text(b.id@));
                assert(batch_drift(manifest@, batches@, k as nat) == Some(unknown_id_text(b.id@)));
                return Err(invalid(out));
            },
            Some(j) => {
                let p = &manifest[j];
                if p.file_count != b.file_count || p.total_bytes != b.total_bytes {
                    let mut out = drift_prefix_for(b.id.as_str());
                    push_str(&mut out, ": batch metadata changed (files ");
                    push_decimal_str(&mut out, p.file_count as u64);
                    push_str(&mut out, "->");
                    push_decimal_str(&mut out, b.file_count as u64);
                    push_str(&mut out, ", bytes ");
                    push_decimal_str(&mut out, p.total_bytes);
                    push_str(&mut out, "->");
                    push_decimal_str(&mut out, b.total_bytes);
                    push_str(&mut out, ")");
                    assert(out@ =~= metadata_changed_text(b.id@, *p, *b));
                    assert(batch_drift(manifest@, batches@, k as nat) == Some(metadata_changed_text(b.id@, *p, *b)));
                    return Err(invalid(out));
                }
                if p.files.len() != b.files.len() {
                    let mut out = drift_prefix_for(b.id.as_str());
                    push_str(&mut out, ": file list length changed (state=");
                    push_decimal_str(&mut out, p.files.len() as u64);
                    push_str(&mut out, ", current=");
                    push_decimal_str(&mut out, b.files.len() as u64);
                    push_str(&mut out, ")");
                    assert(out@ =~= length_changed_text(b.id@, p.files@.len(), b.files@.len()));
                    return Err(invalid(out));
                }
                match check_files(b.id.as_str(), &p.files, &b.files) {
                    Err(text) => {
                        return Err(invalid(text));
                    },
                    Ok(()) => {},
                }
            },
        }
        k = k + 1;
    }
    let mut j: usize = 0;
    while j < manifest.len()
        invariant
            j <= manifest@.len(),
            manifest@ == persisted_manifest@,
            batches@ == current_snapshot.batches@,
            k == batches@.len(),
            manifest_drift(manifest@, batches@) == stale_drift(manifest@, batches@, j as nat),
        decreases manifest.len() - j,
    {
        let id = manifest[j].batch_id.as_str();
        if !contains_batch_id(batches, id) {
            let mut out = owned("source drift detected: persisted manifest contains stale batch id ");
            push_str(&mut out, id);
            assert(out@ =~= stale_id_text(manifest@[j as int].batch_id@));
            assert(stale_drift(manifest@, batches@, j as nat) == Some(stale_id_text(manifest@[j as int].batch_id@)));
            return Err(invalid(out));
        }
        j = j + 1;
    }
    Ok(())
}

/// Whether no two batches of `batches` share an identifier.
pub open spec fn distinct_batch_ids(batches: Seq<Batch>) -> bool {
    forall|a: int, b: int| 0 <= a < b < batches.len() ==> (#[trigger] batches[a]).id@ != (#[trigger] batches[b]).id@
}

proof fn lemma_recorded_files_match(id: Seq<char>, state: Seq<PlannedFile>, current: Seq<FileEntry>, i: nat)
    requires
        state == current.map_values(|f: FileEntry| planned_file_of(f)),
    ensures
        file_drift(id, state, current, i) is None,
    decreases state.len() - i,
{
    if i < state.len() && i < current.len() {
        assert(state[i as int] == planned_file_of(current[i as int]));
        lemma_recorded_files_match(id, state, current, i + 1);
    }
}

proof fn lemma_recorded_stale(manifest: Seq<PlannedBatch>, batches: Seq<Batch>, j: nat)
    requires
        manifest.len() == batches.len(),
        forall|k: int| 0 <= k < manifest.len() ==> (#[trigger] manifest[k]).records(batches[k]),
    ensures
        stale_drift(manifest, batches, j) is None,
    decreases manifest.len() - j,
{
    if j < manifest.len() {
        assert(manifest[j as int].records(batches[j as int]));
        assert(has_batch_id(batches, manifest[j as int].batch_id@));
        lemma_recorded_stale(manifest, batches, j + 1);
    }
}

proof fn lemma_recorded_batches(manifest: Seq<PlannedBatch>, batches: Seq<Batch>, k: nat)
    requires
        manifest.len() == batches.len(),
        forall|i: int| 0 <= i < manifest.len() ==> (#[trigger] manifest[i]).records(batches[i]),
        distinct_batch_ids(batches),
    ensures
        batch_drift(manifest, batches, k) is None,
    decreases batches.len() - k,
{
    if k < batches.len() {
        let b = batches[k as int];
        lemma_last_with_id(manifest, b.id@);
        let r = last_with_id(manifest, b.id@);
        assert(manifest[k as int].records(b));
        if r != k {
            if r > k {
                assert(manifest[r].records(batches[r]));
                assert(batches[k as int].id@ != batches[r].id@);
            }
            assert(false);
        }
        lemma_recorded_files_match(b.id@, manifest[k as int].files@, b.files@, 0);
        lemma_recorded_batches(manifest, batches, k + 1);
    } else {
        lemma_recorded_stale(manifest, batches, 0);
    }
}

/// A manifest recorded from a plan whose batch identifiers are distinct shows no drift
/// against that plan: checking a plan against its own manifest succeeds.
pub proof fn lemma_recorded_manifest_matches(manifest: Seq<PlannedBatch>, batches: Seq<Batch>)
    requires
        manifest.len() == batches.len(),
        forall|k: int| 0 <= k < manifest.len() ==> (#[trigger] manifest[k]).records(batches[k]),
        distinct_batch_ids(batches),
    ensures
        manifest_drift(manifest, batches) is None,
{
    lemma_recorded_batches(manifest, batches, 0);
}


/// `perm` lists every position below `n` exactly once.
pub open spec fn is_permutation(perm: Seq<int>, n: int) -> bool {
    &&& perm.len() == n
    &&& forall|i: int| 0 <= i < n ==> 0 <= #[trigger] perm[i] < n
    &&& forall|i: int, j: int| 0 <= i < j < n ==> #[trigger] perm[i] != #[trigger] perm[j]
}

proof fn lemma_permutation_covers(perm: Seq<int>, n: int)
    requires
        is_permutation(perm, n),
    ensures
        forall|x: int| 0 <= x < n ==> perm.contains(x),
{
    assert(perm.no_duplicates()) by {
        assert forall|i: int, j: int| 0 <= i < perm.len() && 0 <= j < perm.len() && i != j implies perm[i]
            != perm[j] by {
            if i < j {
                assert(perm[i] != perm[j]);
            } else {
                assert(perm[j] != perm[i]);
            }
        }
    }
    perm.unique_seq_to_set();
    vstd::set_lib::lemma_int_range(0, n);
    let range = vstd::set_lib::set_int_range(0, n);
    assert forall|x: int| perm.to_set().contains(x) implies range.contains(x) by {
        let i = choose|i: int| 0 <= i < perm.len() && perm[i] == x;
        assert(0 <= perm[i] < n);
    }
    vstd::seq_lib::seq_to_set_is_finite(perm);
    vstd::set_lib::lemma_subset_equality(perm.to_set(), range);
    assert forall|x: int| 0 <= x < n implies perm.contains(x) by {
        assert(range.contains(x));
        assert(perm.to_set().contains(x));
    }
}

proof fn lemma_permuted_stale(manifest: Seq<PlannedBatch>, batches: Seq<Batch>, perm: Seq<int>, j: nat)
    requires
        manifest.len() == batches.len(),
        is_permutation(perm, batches.len() as int),
        forall|i: int| 0 <= i < manifest.len() ==> (#[trigger] manifest[i]).records(batches[perm[i]]),
    ensures
        stale_drift(manifest, batches, j) is None,
    decreases manifest.len() - j,
{
    if j < manifest.len() {
        assert(manifest[j as int].records(batches[perm[j as int]]));
        assert(0 <= perm[j as int] < batches.len());
        assert(has_batch_id(batches, manifest[j as int].batch_id@));
        lemma_permuted_stale(manifest, batches, perm, j + 1);
    }
}

proof fn lemma_permuted_batches(manifest: Seq<PlannedBatch>, batches: Seq<Batch>, perm: Seq<int>, k: nat)
    requires
        manifest.len() == batches.len(),
        is_permutation(perm, batches.len() as int),
        forall|x: int| 0 <= x < batches.len() ==> perm.contains(x),
        forall|i: int| 0 <= i < manifest.len() ==> (#[trigger] manifest[i]).records(batches[perm[i]]),
        distinct_batch_ids(batches),
    ensures
        batch_drift(manifest, batches, k) is None,
    decreases batches.len() - k,
{
    if k < batches.len() {
        let b = batches[k as int];
        assert(perm.contains(k as int));
        let i = choose|i: int| 0 <= i < perm.len() && perm[i] == k;
        assert(manifest[i].records(b));
        lemma_last_with_id(manifest, b.id@);
        let r = last_with_id(manifest, b.id@);
        assert(r >= i);
        assert(manifest[r].records(batches[perm[r]]));
        assert(0 <= perm[r] < batches.len());
        if perm[r] != k {
            if perm[r] < k {
                assert(batches[perm[r]].id@ != batches[k as int].id@);
            } else {
                assert(batches[k as int].id@ != batches[perm[r]].id@);
            }
        }
        if r != i {
            assert(perm[i] != perm[r]);
        }
        lemma_recorded_files_match(b.id@, manifest[i].files@, b.files@, 0);
        lemma_permuted_batches(manifest, batches, perm, k + 1);
    } else {
        lemma_permuted_stale(manifest, batches, perm, 0);
    }
}

/// A manifest recorded from a plan whose batch identifiers are distinct shows no drift against
/// that plan whatever the order of its entries: if entry `i` records batch `perm[i]` for a
/// permutation `perm`, checking the plan against the manifest succeeds.
pub proof fn lemma_recorded_manifest_matches_in_any_order(
    manifest: Seq<PlannedBatch>,
    batches: Seq<Batch>,
    perm: Seq<int>,
)
    requires
        manifest.len() == batches.len(),
        is_permutation(perm, batches.len() as int),
        forall|i: int| 0 <= i < manifest.len() ==> (#[trigger] manifest[i]).records(batches[perm[i]]),
        distinct_batch_ids(batches),
    ensures
        manifest_drift(manifest, batches) is None,
{
    lemma_permutation_covers(perm, batches.len() as int);
    lemma_permuted_batches(manifest, batches, perm, 0);
}

} // verus!
