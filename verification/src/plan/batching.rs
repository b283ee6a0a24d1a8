//! Cutting an ordered list of files into batches.

use vstd::prelude::*;

use crate::error::CaravanError;
use crate::models::batch::Batch;
use crate::models::file_entry::FileEntry;
use crate::plan::order::{as_ints, is_planning_order, permuted, planning_order};
use crate::plan::types::{PlanOptions, PlanningSnapshot};
use crate::text::{concat, zero_padded, zero_padded_string};

verus! {

/// Files grouped so far: closed groups with their byte totals, the open
/// group, and the open group's byte total.
pub struct PlanAcc {
    pub done: Seq<(Seq<FileEntry>, u64)>,
    pub current: Seq<FileEntry>,
    pub bytes: u64,
}

/// `a + b`, or `u64::MAX` when that does not fit.
pub open spec fn sat_add(a: u64, b: u64) -> u64 {
    if a + b > u64::MAX {
        u64::MAX
    } else {
        (a + b) as u64
    }
}

/// The file limit of a batch: `max_files`, or no limit below `usize::MAX`.
pub open spec fn file_limit(max_files: Option<usize>) -> nat {
    match max_files {
        Some(m) => m as nat,
        None => usize::MAX as nat,
    }
}

/// Adds one file to the grouping. A file larger than the batch size is a
/// batch on its own (closing the open group first); otherwise the open group
/// is closed first when the file would push it over the size or file limit.
pub open spec fn plan_step(acc: PlanAcc, entry: FileEntry, batch_size: u64, limit: nat) -> PlanAcc {
    if entry.size_bytes > batch_size {
        let done = if acc.current.len() > 0 {
            acc.done.push((acc.current, acc.bytes))
        } else {
            acc.done
        };
        PlanAcc {
            done: done.push((seq![entry], entry.size_bytes)),
            current: Seq::empty(),
            bytes: if acc.current.len() > 0 { 0 } else { acc.bytes },
        }
    } else {
        let exceeds_size = sat_add(acc.bytes, entry.size_bytes) > batch_size;
        let exceeds_files = acc.current.len() >= limit;
        if acc.current.len() > 0 && (exceeds_size || exceeds_files) {
            PlanAcc {
                done: acc.done.push((acc.current, acc.bytes)),
                current: seq![entry],
                bytes: sat_add(0, entry.size_bytes),
            }
        } else {
            PlanAcc {
                done: acc.done,
                current: acc.current.push(entry),
                bytes: sat_add(acc.bytes, entry.size_bytes),
            }
        }
    }
}

/// The grouping after all of `entries`, in order.
pub open spec fn plan_fold(entries: Seq<FileEntry>, batch_size: u64, limit: nat) -> PlanAcc
    decreases entries.len(),
{
    if entries.len() == 0 {
        PlanAcc { done: Seq::empty(), current: Seq::empty(), bytes: 0 }
    } else {
        plan_step(plan_fold(entries.drop_last(), batch_size, limit), entries.last(), batch_size, limit)
    }
}

/// The groups of files, in order, each with its byte total.
pub open spec fn plan_groups(entries: Seq<FileEntry>, batch_size: u64, limit: nat) -> Seq<(Seq<FileEntry>, u64)> {
    let acc = plan_fold(entries, batch_size, limit);
    if acc.current.len() > 0 {
        acc.done.push((acc.current, acc.bytes))
    } else {
        acc.done
    }
}

/// The identifier of the batch numbered `index`: `batch-` and the number on six digits.
pub open spec fn batch_id_text(index: nat) -> Seq<char> {
    "batch-"@ + zero_padded(index, 6)
}

/// `batches` are the groups, numbered from one.
pub open spec fn batches_match(batches: Seq<Batch>, groups: Seq<(Seq<FileEntry>, u64)>) -> bool {
    &&& batches.len() == groups.len()
    &&& forall|k: int|
        0 <= k < batches.len() ==> {
            &&& (#[trigger] batches[k]).id@ == batch_id_text((k + 1) as nat)
            &&& batches[k].files@ == groups[k].0
            &&& batches[k].file_count == groups[k].0.len()
            &&& batches[k].total_bytes == groups[k].1
        }
}

/// `e` is an invalid-arguments error with message `text`.
pub open spec fn is_invalid_args(e: CaravanError, text: Seq<char>) -> bool {
    e matches CaravanError::InvalidArguments(m) && m@ == text
}

/// The error for plan options that cannot be used, if any.
pub open spec fn plan_options_error(options: PlanOptions) -> Option<Seq<char>> {
    if options.batch_size_bytes == 0 {
        Some("batch-size must be greater than zero"@)
    } else if options.max_files == Some(0usize) {
        Some("max-files must be greater than zero when provided"@)
    } else {
        None
    }
}

/// The batches of `entries` in the stable planning order `order`.
pub open spec fn planned_batches_for(
    batches: Seq<Batch>,
    entries: Seq<FileEntry>,
    order: Seq<int>,
    options: PlanOptions,
) -> bool {
    &&& is_planning_order(entries, order)
    &&& batches_match(
        batches,
        plan_groups(permuted(entries, order), options.batch_size_bytes, file_limit(options.max_files)),
    )
}

/// Rejects a zero batch size and a zero file limit.
pub fn validate_plan_options(options: &PlanOptions) -> (r: Result<(), CaravanError>)
    ensures
        match plan_options_error(*options) {
            Some(text) => r is Err && is_invalid_args(r->Err_0, text),
            None => r is Ok,
        },
{
    if options.batch_size_bytes == 0 {
        return Err(CaravanError::InvalidArguments(String::from_str("batch-size must be greater than zero")));
    }
    match options.max_files {
        Some(m) => {
            if m == 0 {
                return Err(CaravanError::InvalidArguments(String::from_str(
                    "max-files must be greater than zero when provided",
                )));
            }
        },
        None => {},
    }
    Ok(())
}

/// A batch numbered `index` holding `files`.
fn make_batch(index: usize, files: Vec<FileEntry>, total_bytes: u64) -> (r: Batch)
    ensures
        r.id@ == batch_id_text(index as nat),
        r.files@ == files@,
        r.file_count == files@.len(),
        r.total_bytes == total_bytes,
{
    let digits = zero_padded_string(index as u64, 6);
    let id = concat("batch-", digits.as_str());
    Batch { id, file_count: files.len(), files, total_bytes }
}

fn sat_add_exec(a: u64, b: u64) -> (r: u64)
    ensures
        r == sat_add(a, b),
{
    a.saturating_add(b)
}

/// Groups `sorted` (already in planning order) into numbered batches.
fn build_batches_from_ordered_entries(sorted: Vec<FileEntry>, options: &PlanOptions) -> (r: Vec<Batch>)
    ensures
        batches_match(r@, plan_groups(sorted@, options.batch_size_bytes, file_limit(options.max_files))),
{
    let bs = options.batch_size_bytes;
    let limit: usize = match options.max_files {
        Some(m) => m,
        None => usize::MAX,
    };
    let ghost lim = file_limit(options.max_files);
    let mut batches: Vec<Batch> = Vec::new();
    let mut current: Vec<FileEntry> = Vec::new();
    let mut current_bytes: u64 = 0;
    let mut i: usize = 0;
    let n = sorted.len();
    assert(sorted@.take(0) =~= Seq::<FileEntry>::empty());
    while i < n
        invariant
            i <= n,
            n == sorted@.len(),
            bs == options.batch_size_bytes,
            lim == limit as nat,
            lim == file_limit(options.max_files),
            ({
                let acc = plan_fold(sorted@.take(i as int), bs, lim);
                &&& batches_match(batches@, acc.done)
                &&& current@ == acc.current
                &&& current_bytes == acc.bytes
            }),
            batches@.len() + current@.len() <= i,
        decreases n - i,
    {
        let entry = sorted[i].clone();
        let ghost acc = plan_fold(sorted@.take(i as int), bs, lim);
        assert(sorted@.take(i + 1 as int).drop_last() =~= sorted@.take(i as int));
        assert(sorted@.take(i + 1 as int).last() == entry);
        if entry.size_bytes > bs {
            if current.len() > 0 {
                let files = current;
                current = Vec::new();
                let b = make_batch(batches.len() + 1, files, current_bytes);
                batches.push(b);
                current_bytes = 0;
            }
            let size = entry.size_bytes;
            let mut single: Vec<FileEntry> = Vec::new();
            single.push(entry);
            let b = make_batch(batches.len() + 1, single, size);
            batches.push(b);
        } else {
            let exceeds_size = sat_add_exec(current_bytes, entry.size_bytes) > bs;
            let exceeds_files = current.len() >= limit;
            if current.len() > 0 && (exceeds_size || exceeds_files) {
                let files = current;
                current = Vec::new();
                let b = make_batch(batches.len() + 1, files, current_bytes);
                batches.push(b);
                current_bytes = 0;
            }
            current_bytes = sat_add_exec(current_bytes, entry.size_bytes);
            current.push(entry);
        }
        i = i + 1;
        proof {
            let next = plan_fold(sorted@.take(i as int), bs, lim);
            assert(next == plan_step(acc, sorted@[i - 1], bs, lim));
            assert(current@ =~= next.current);
            assert(batches@.len() == next.done.len());
            assert forall|k: int| 0 <= k < batches@.len() implies {
                &&& (#[trigger] batches@[k]).id@ == batch_id_text((k + 1) as nat)
                &&& batches@[k].files@ == next.done[k].0
                &&& batches@[k].file_count == next.done[k].0.len()
                &&& batches@[k].total_bytes == next.done[k].1
            } by {
            }
        }
    }
    assert(sorted@.take(n as int) =~= sorted@);
    if current.len() > 0 {
        let b = make_batch(batches.len() + 1, current, current_bytes);
        batches.push(b);
    }
    batches
}

/// Orders `entries` for planning (see [`crate::plan::order`]) and groups them into batches.
pub fn plan_batches(entries: Vec<FileEntry>, options: &PlanOptions) -> (r: Result<Vec<Batch>, CaravanError>)
    ensures
        match plan_options_error(*options) {
            Some(text) => r is Err && is_invalid_args(r->Err_0, text),
            None => r is Ok && exists|order: Seq<int>|
                #[trigger] planned_batches_for(r->Ok_0@, entries@, order, *options),
        },
{
    match validate_plan_options(options) {
        Err(e) => {
            return Err(e);
        },
        Ok(()) => {},
    }
    let order = planning_order(&entries);
    let mut sorted: Vec<FileEntry> = Vec::new();
    let mut i: usize = 0;
    while i < order.len()
        invariant
            i <= order@.len(),
            is_planning_order(entries@, as_ints(order@)),
            sorted@ =~= permuted(entries@, as_ints(order@)).take(i as int),
        decreases order.len() - i,
    {
        assert(as_ints(order@)[i as int] == order@[i as int] as int);
        let e = entries[order[i]].clone();
        sorted.push(e);
        i = i + 1;
    }
    assert(permuted(entries@, as_ints(order@)).take(order@.len() as int) =~= permuted(entries@, as_ints(order@)));
    let batches = build_batches_from_ordered_entries(sorted, options);
    assert(planned_batches_for(batches@, entries@, as_ints(order@), *options));
    assert(plan_options_error(*options) is None);
    let r: Result<Vec<Batch>, CaravanError> = Ok(batches);
    assert(r->Ok_0@ == batches@);
    assert(planned_batches_for(r->Ok_0@, entries@, as_ints(order@), *options));
    r
}

} // verus!

verus! {

/// The files of `groups`, group after group.
pub open spec fn flatten(groups: Seq<(Seq<FileEntry>, u64)>) -> Seq<FileEntry>
    decreases groups.len(),
{
    if groups.len() == 0 {
        Seq::empty()
    } else {
        flatten(groups.drop_last()) + groups.last().0
    }
}

/// The total size of `files`.
pub open spec fn sum_sizes(files: Seq<FileEntry>) -> nat
    decreases files.len(),
{
    if files.len() == 0 {
        0
    } else {
        sum_sizes(files.drop_last()) + (files.last().size_bytes as nat)
    }
}

/// A group is non-empty and within the file limit.
pub open spec fn group_shape_ok(g: (Seq<FileEntry>, u64), limit: nat) -> bool {
    &&& g.0.len() > 0
    &&& g.0.len() <= limit
}

/// A group's total is the sum of its sizes, and it fits the batch size
/// unless it is a single file.
pub open spec fn group_size_ok(g: (Seq<FileEntry>, u64), batch_size: u64) -> bool {
    &&& g.1 == sum_sizes(g.0)
    &&& (g.1 <= batch_size || g.0.len() == 1)
}

/// The grouping after a prefix of the files covers exactly that prefix.
pub open spec fn plan_acc_cover(acc: PlanAcc, prefix: Seq<FileEntry>, limit: nat) -> bool {
    &&& flatten(acc.done) + acc.current == prefix
    &&& forall|k: int| 0 <= k < acc.done.len() ==> group_shape_ok(#[trigger] acc.done[k], limit)
    &&& acc.current.len() <= limit
}

/// The byte totals of the grouping after a prefix of the files.
pub open spec fn plan_acc_sizes(acc: PlanAcc, batch_size: u64) -> bool {
    &&& forall|k: int| 0 <= k < acc.done.len() ==> group_size_ok(#[trigger] acc.done[k], batch_size)
    &&& acc.bytes == sum_sizes(acc.current)
    &&& acc.bytes <= batch_size
}

/// The total size of two lists of files put together is the sum of their totals.
pub proof fn lemma_sum_sizes_append(a: Seq<FileEntry>, b: Seq<FileEntry>)
    ensures
        sum_sizes(a + b) == sum_sizes(a) + sum_sizes(b),
    decreases b.len(),
{
    if b.len() == 0 {
        assert(a + b =~= a);
    } else {
        assert((a + b).drop_last() =~= a + b.drop_last());
        lemma_sum_sizes_append(a, b.drop_last());
    }
}

proof fn lemma_sum_single(e: FileEntry)
    ensures
        sum_sizes(seq![e]) == e.size_bytes,
{
    assert(seq![e].drop_last() =~= Seq::<FileEntry>::empty());
    assert(seq![e].last() == e);
    assert(sum_sizes(Seq::<FileEntry>::empty()) == 0);
}

proof fn lemma_plan_step_cover(acc: PlanAcc, prefix: Seq<FileEntry>, e: FileEntry, batch_size: u64, limit: nat)
    requires
        plan_acc_cover(acc, prefix, limit),
        limit >= 1,
    ensures
        plan_acc_cover(plan_step(acc, e, batch_size, limit), prefix.push(e), limit),
{
    let next = plan_step(acc, e, batch_size, limit);
    if e.size_bytes > batch_size {
        let done = if acc.current.len() > 0 { acc.done.push((acc.current, acc.bytes)) } else { acc.done };
        assert(flatten(done) == prefix) by {
            if acc.current.len() > 0 {
                assert(done.drop_last() =~= acc.done);
            } else {
                assert(flatten(acc.done) + acc.current =~= flatten(acc.done));
            }
        }
        let d2 = done.push((seq![e], e.size_bytes));
        assert(d2.drop_last() =~= done);
        assert(flatten(d2) + next.current =~= prefix.push(e));
        assert forall|k: int| 0 <= k < d2.len() implies group_shape_ok(#[trigger] d2[k], limit) by {
            if k < acc.done.len() {
                assert(d2[k] == acc.done[k]);
            }
        }
    } else {
        let exceeds_size = sat_add(acc.bytes, e.size_bytes) > batch_size;
        let exceeds_files = acc.current.len() >= limit;
        if acc.current.len() > 0 && (exceeds_size || exceeds_files) {
            let d2 = acc.done.push((acc.current, acc.bytes));
            assert(d2.drop_last() =~= acc.done);
            assert(flatten(d2) + seq![e] =~= prefix.push(e));
            assert forall|k: int| 0 <= k < d2.len() implies group_shape_ok(#[trigger] d2[k], limit) by {
                if k < acc.done.len() {
                    assert(d2[k] == acc.done[k]);
                }
            }
        } else {
            assert(flatten(acc.done) + acc.current.push(e) =~= prefix.push(e));
        }
    }
}

proof fn lemma_plan_step_sizes(acc: PlanAcc, prefix: Seq<FileEntry>, e: FileEntry, batch_size: u64, limit: nat)
    requires
        plan_acc_cover(acc, prefix, limit),
        plan_acc_sizes(acc, batch_size),
        sum_sizes(prefix.push(e)) <= u64::MAX,
    ensures
        plan_acc_sizes(plan_step(acc, e, batch_size, limit), batch_size),
{
    let next = plan_step(acc, e, batch_size, limit);
    lemma_sum_single(e);
    lemma_sum_sizes_append(flatten(acc.done), acc.current);
    assert(prefix.push(e).drop_last() =~= prefix);
    assert(sum_sizes(prefix.push(e)) == sum_sizes(prefix) + e.size_bytes);
    assert(sum_sizes(acc.current) + e.size_bytes <= u64::MAX);
    if e.size_bytes > batch_size {
        let done = if acc.current.len() > 0 { acc.done.push((acc.current, acc.bytes)) } else { acc.done };
        let d2 = done.push((seq![e], e.size_bytes));
        assert forall|k: int| 0 <= k < d2.len() implies group_size_ok(#[trigger] d2[k], batch_size) by {
            if k < acc.done.len() {
                assert(d2[k] == acc.done[k]);
            }
        }
        assert(sum_sizes(next.current) == 0);
    } else {
        let exceeds_size = sat_add(acc.bytes, e.size_bytes) > batch_size;
        let exceeds_files = acc.current.len() >= limit;
        if acc.current.len() > 0 && (exceeds_size || exceeds_files) {
            let d2 = acc.done.push((acc.current, acc.bytes));
            assert forall|k: int| 0 <= k < d2.len() implies group_size_ok(#[trigger] d2[k], batch_size) by {
                if k < acc.done.len() {
                    assert(d2[k] == acc.done[k]);
                }
            }
        } else {
            assert(acc.current.push(e).drop_last() =~= acc.current);
            assert(sum_sizes(acc.current.push(e)) == acc.bytes + e.size_bytes);
        }
    }
}

proof fn lemma_plan_fold_cover(entries: Seq<FileEntry>, batch_size: u64, limit: nat)
    requires
        limit >= 1,
    ensures
        plan_acc_cover(plan_fold(entries, batch_size, limit), entries, limit),
    decreases entries.len(),
{
    if entries.len() == 0 {
        assert(flatten(Seq::<(Seq<FileEntry>, u64)>::empty()) + Seq::<FileEntry>::empty() =~= entries);
    } else {
        lemma_plan_fold_cover(entries.drop_last(), batch_size, limit);
        lemma_plan_step_cover(
            plan_fold(entries.drop_last(), batch_size, limit),
            entries.drop_last(),
            entries.last(),
            batch_size,
            limit,
        );
        assert(entries.drop_last().push(entries.last()) =~= entries);
    }
}

proof fn lemma_plan_fold_sizes(entries: Seq<FileEntry>, batch_size: u64, limit: nat)
    requires
        limit >= 1,
        sum_sizes(entries) <= u64::MAX,
    ensures
        plan_acc_sizes(plan_fold(entries, batch_size, limit), batch_size),
    decreases entries.len(),
{
    if entries.len() > 0 {
        lemma_plan_fold_cover(entries.drop_last(), batch_size, limit);
        lemma_plan_fold_sizes(entries.drop_last(), batch_size, limit);
        assert(entries.drop_last().push(entries.last()) =~= entries);
        lemma_plan_step_sizes(
            plan_fold(entries.drop_last(), batch_size, limit),
            entries.drop_last(),
            entries.last(),
            batch_size,
            limit,
        );
    }
}

/// Planning loses no file, adds none and keeps their order: the groups,
/// read one after the other, give back exactly the files in planning order.
/// Every group is non-empty and holds at most the file limit.
pub proof fn lemma_plan_groups_partition(entries: Seq<FileEntry>, batch_size: u64, limit: nat)
    requires
        limit >= 1,
    ensures
        flatten(plan_groups(entries, batch_size, limit)) == entries,
        forall|k: int|
            0 <= k < plan_groups(entries, batch_size, limit).len() ==> group_shape_ok(
                #[trigger] plan_groups(entries, batch_size, limit)[k],
                limit,
            ),
{
    lemma_plan_fold_cover(entries, batch_size, limit);
    let acc = plan_fold(entries, batch_size, limit);
    let g = plan_groups(entries, batch_size, limit);
    if acc.current.len() > 0 {
        assert(g.drop_last() =~= acc.done);
        assert forall|k: int| 0 <= k < g.len() implies group_shape_ok(#[trigger] g[k], limit) by {
            if k < acc.done.len() {
                assert(g[k] == acc.done[k]);
            }
        }
    } else {
        assert(flatten(acc.done) + acc.current =~= flatten(acc.done));
    }
}

/// Every batch's total is the sum of its file sizes and stays within the
/// batch size, unless the batch is a single file larger than a batch
/// (when the sizes of all files add up within `u64`).
pub proof fn lemma_plan_groups_sizes(entries: Seq<FileEntry>, batch_size: u64, limit: nat)
    requires
        limit >= 1,
        sum_sizes(entries) <= u64::MAX,
    ensures
        forall|k: int|
            0 <= k < plan_groups(entries, batch_size, limit).len() ==> group_size_ok(
                #[trigger] plan_groups(entries, batch_size, limit)[k],
                batch_size,
            ),
{
    lemma_plan_fold_cover(entries, batch_size, limit);
    lemma_plan_fold_sizes(entries, batch_size, limit);
    let acc = plan_fold(entries, batch_size, limit);
    let g = plan_groups(entries, batch_size, limit);
    assert forall|k: int| 0 <= k < g.len() implies group_size_ok(#[trigger] g[k], batch_size) by {
        if k < acc.done.len() {
            assert(g[k] == acc.done[k]);
        }
    }
}

/// A batch `g` was closed before a file `next` for a reason: the file would push it over the
/// batch size, it already holds the file limit, the file is larger than a batch, or `g` is a
/// single file larger than a batch.
pub open spec fn closed_greedily(g: (Seq<FileEntry>, u64), next: FileEntry, batch_size: u64, limit: nat) -> bool {
    ||| g.1 + next.size_bytes > batch_size
    ||| g.0.len() >= limit
    ||| next.size_bytes > batch_size
    ||| (g.0.len() == 1 && g.0[0].size_bytes > batch_size)
}

/// Every closed group of the grouping so far was closed for a reason, and so was the last one
/// if a group is open; with no open group, the last closed one is a single oversized file.
spec fn greedy_acc(acc: PlanAcc, batch_size: u64, limit: nat) -> bool {
    &&& forall|i: int, j: int|
        0 <= i && j == i + 1 && j < acc.done.len() ==> closed_greedily(
            #[trigger] acc.done[i],
            (#[trigger] acc.done[j]).0[0],
            batch_size,
            limit,
        )
    &&& (acc.current.len() > 0 && acc.done.len() > 0 ==> closed_greedily(
        acc.done.last(),
        acc.current[0],
        batch_size,
        limit,
    ))
    &&& (acc.current.len() == 0 && acc.done.len() > 0 ==> acc.done.last().0.len() == 1
        && acc.done.last().0[0].size_bytes > batch_size)
}

proof fn lemma_plan_step_greedy(acc: PlanAcc, e: FileEntry, batch_size: u64, limit: nat)
    requires
        greedy_acc(acc, batch_size, limit),
    ensures
        greedy_acc(plan_step(acc, e, batch_size, limit), batch_size, limit),
{
    let next = plan_step(acc, e, batch_size, limit);
    let n = acc.done.len();
    if e.size_bytes > batch_size {
        let done = if acc.current.len() > 0 { acc.done.push((acc.current, acc.bytes)) } else { acc.done };
        let d2 = done.push((seq![e], e.size_bytes));
        assert(next.done == d2);
        assert forall|i: int, j: int|
            0 <= i && j == i + 1 && j < d2.len() implies closed_greedily(
                #[trigger] d2[i],
                (#[trigger] d2[j]).0[0],
                batch_size,
                limit,
            ) by {
            if j == d2.len() - 1 {
                assert(d2[j].0[0] == e);
            } else if acc.current.len() > 0 && j == n {
                assert(d2[i] == acc.done.last());
                assert(d2[j].0[0] == acc.current[0]);
            } else {
                assert(d2[i] == acc.done[i]);
                assert(d2[j] == acc.done[j]);
            }
        }
        assert(d2.last().0 == seq![e]);
    } else {
        let exceeds_size = sat_add(acc.bytes, e.size_bytes) > batch_size;
        let exceeds_files = acc.current.len() >= limit;
        if acc.current.len() > 0 && (exceeds_size || exceeds_files) {
            let d2 = acc.done.push((acc.current, acc.bytes));
            assert(next.done == d2);
            assert forall|i: int, j: int|
                0 <= i && j == i + 1 && j < d2.len() implies closed_greedily(
                    #[trigger] d2[i],
                    (#[trigger] d2[j]).0[0],
                    batch_size,
                    limit,
                ) by {
                if j == n {
                    assert(d2[i] == acc.done.last());
                    assert(d2[j].0[0] == acc.current[0]);
                } else {
                    assert(d2[i] == acc.done[i]);
                    assert(d2[j] == acc.done[j]);
                }
            }
            assert(d2.last() == (acc.current, acc.bytes));
            assert(next.current[0] == e);
        } else {
            assert(next.done == acc.done);
            assert(next.current.len() > 0);
            if acc.current.len() > 0 {
                assert(next.current[0] == acc.current[0]);
            } else {
                assert(next.current[0] == e);
            }
        }
    }
}

proof fn lemma_plan_fold_greedy(entries: Seq<FileEntry>, batch_size: u64, limit: nat)
    ensures
        greedy_acc(plan_fold(entries, batch_size, limit), batch_size, limit),
    decreases entries.len(),
{
    if entries.len() > 0 {
        lemma_plan_fold_greedy(entries.drop_last(), batch_size, limit);
        lemma_plan_step_greedy(plan_fold(entries.drop_last(), batch_size, limit), entries.last(), batch_size, limit);
    }
}

/// Batches are filled greedily: each batch but the last was closed only because the next file
/// would push it over the batch size, because it already held the file limit, because the next
/// file is larger than a batch, or because it is a single file larger than a batch.
pub proof fn lemma_batches_closed_greedily(
    batches: Seq<Batch>,
    entries: Seq<FileEntry>,
    batch_size: u64,
    limit: nat,
)
    requires
        batches_match(batches, plan_groups(entries, batch_size, limit)),
    ensures
        forall|i: int, j: int|
            0 <= i && j == i + 1 && j < batches.len() ==> {
                let b = #[trigger] batches[i];
                let first = (#[trigger] batches[j]).files@[0];
                ||| b.total_bytes + first.size_bytes > batch_size
                ||| b.file_count >= limit
                ||| first.size_bytes > batch_size
                ||| (b.file_count == 1 && b.files@[0].size_bytes > batch_size)
            },
{
    let acc = plan_fold(entries, batch_size, limit);
    let g = plan_groups(entries, batch_size, limit);
    lemma_plan_fold_greedy(entries, batch_size, limit);
    assert forall|i: int, j: int|
        0 <= i && j == i + 1 && j < g.len() implies closed_greedily(
            #[trigger] g[i],
            (#[trigger] g[j]).0[0],
            batch_size,
            limit,
        ) by {
        if acc.current.len() > 0 && j == g.len() - 1 {
            assert(g[i] == acc.done.last());
            assert(g[j] == (acc.current, acc.bytes));
        } else {
            assert(g[i] == acc.done[i]);
            assert(g[j] == acc.done[j]);
        }
    }
    assert forall|i: int, j: int| 0 <= i && j == i + 1 && j < batches.len() implies {
        let b = #[trigger] batches[i];
        let first = (#[trigger] batches[j]).files@[0];
        ||| b.total_bytes + first.size_bytes > batch_size
        ||| b.file_count >= limit
        ||| first.size_bytes > batch_size
        ||| (b.file_count == 1 && b.files@[0].size_bytes > batch_size)
    } by {
        assert(closed_greedily(g[i], g[j].0[0], batch_size, limit));
        assert(batches[i].files@ == g[i].0);
        assert(batches[j].files@ == g[j].0);
    }
}

proof fn lemma_flatten_prefix_len(groups: Seq<(Seq<FileEntry>, u64)>, k: int)
    requires
        0 <= k <= groups.len(),
    ensures
        flatten(groups.take(k)).len() <= flatten(groups).len(),
    decreases groups.len(),
{
    if k < groups.len() {
        assert(groups.drop_last().take(k) =~= groups.take(k));
        lemma_flatten_prefix_len(groups.drop_last(), k);
    } else {
        assert(groups.take(k) =~= groups);
    }
}

proof fn lemma_sum_sizes_prefix(files: Seq<FileEntry>, k: int)
    requires
        0 <= k <= files.len(),
    ensures
        sum_sizes(files.take(k)) <= sum_sizes(files),
    decreases files.len(),
{
    if k < files.len() {
        assert(files.drop_last().take(k) =~= files.take(k));
        lemma_sum_sizes_prefix(files.drop_last(), k);
    } else {
        assert(files.take(k) =~= files);
    }
}

/// Sum of the sizes of `entries`.
fn total_size(entries: &Vec<FileEntry>) -> (r: u64)
    requires
        sum_sizes(entries@) <= u64::MAX,
    ensures
        r == sum_sizes(entries@),
{
    let mut total: u64 = 0;
    let mut i: usize = 0;
    while i < entries.len()
        invariant
            i <= entries@.len(),
            total == sum_sizes(entries@.take(i as int)),
            sum_sizes(entries@) <= u64::MAX,
        decreases entries.len() - i,
    {
        assert(entries@.take(i + 1 as int).drop_last() =~= entries@.take(i as int));
        proof {
            lemma_sum_sizes_prefix(entries@, i + 1);
        }
        total = total + entries[i].size_bytes;
        i = i + 1;
    }
    assert(entries@.take(entries@.len() as int) =~= entries@);
    total
}

/// Plans `entries`: the batches, the number of files and their total size.
pub fn build_plan_from_entries(entries: Vec<FileEntry>, options: &PlanOptions) -> (r: Result<PlanningSnapshot, CaravanError>)
    requires
        sum_sizes(entries@) <= u64::MAX,
    ensures
        match plan_options_error(*options) {
            Some(text) => r is Err && is_invalid_args(r->Err_0, text),
            None => r is Ok && r->Ok_0.source_total_bytes == sum_sizes(entries@)
                && r->Ok_0.source_file_count == entries@.len()
                && exists|order: Seq<int>| #[trigger] planned_batches_for(r->Ok_0.batches@, entries@, order, *options),
        },
{
    let source_total_bytes = total_size(&entries);
    let n_entries = entries.len();
    let ghost orig = entries@;
    let batches = match plan_batches(entries, options) {
        Ok(b) => b,
        Err(e) => {
            return Err(e);
        },
    };
    let ghost order = choose|order: Seq<int>| #[trigger] planned_batches_for(batches@, orig, order, *options);
    let ghost groups = plan_groups(permuted(orig, order), options.batch_size_bytes, file_limit(options.max_files));
    proof {
        lemma_plan_groups_partition(permuted(orig, order), options.batch_size_bytes, file_limit(options.max_files));
    }
    let mut count: usize = 0;
    let mut k: usize = 0;
    while k < batches.len()
        invariant
            k <= batches@.len(),
            batches_match(batches@, groups),
            flatten(groups).len() == orig.len(),
            orig.len() == n_entries,
            count == flatten(groups.take(k as int)).len(),
        decreases batches.len() - k,
    {
        assert(groups.take(k + 1 as int).drop_last() =~= groups.take(k as int));
        proof {
            lemma_flatten_prefix_len(groups, k + 1);
        }
        count = count + batches[k].file_count;
        k = k + 1;
    }
    assert(groups.take(groups.len() as int) =~= groups);
    let r = PlanningSnapshot { source_file_count: count, source_total_bytes, batches };
    assert(planned_batches_for(r.batches@, orig, order, *options));
    Ok(r)
}

/// Checks the options, then plans `entries` (the files found under the source root).
pub fn build_plan(entries: Vec<FileEntry>, options: &PlanOptions) -> (r: Result<PlanningSnapshot, CaravanError>)
    requires
        sum_sizes(entries@) <= u64::MAX,
    ensures
        match plan_options_error(*options) {
            Some(text) => r is Err && is_invalid_args(r->Err_0, text),
            None => r is Ok && r->Ok_0.source_total_bytes == sum_sizes(entries@)
                && r->Ok_0.source_file_count == entries@.len()
                && exists|order: Seq<int>| #[trigger] planned_batches_for(r->Ok_0.batches@, entries@, order, *options),
        },
{
    match validate_plan_options(options) {
        Err(e) => {
            return Err(e);
        },
        Ok(()) => {},
    }
    build_plan_from_entries(entries, options)
}

} // verus!
