//! Setting up the state of a transfer run, and the run configuration of a resume.

use vstd::prelude::*;

use crate::config::{ConflictPolicy, CopyStrategy, Mode, TransferConfig};
use crate::error::CaravanError;
use crate::migration_registry::slashes_normalized;
use crate::models::batch::Batch;
use crate::models::state::{
    batch_ids, batch_of, first_index, is_first_index, lemma_first_index, lemma_first_index_exists,
    planned_ids, planned_of, BatchPhase, BatchState, MigrationState, PlannedBatch,
};
use crate::plan::batching::is_invalid_args;
use crate::plan::manifest::{ensure_manifest_matches_snapshot, manifest_drift, planned_batches_from_snapshot};
use crate::plan::types::PlanningSnapshot;
use crate::text::{ascii_lowercase, ascii_lowercase_chars, chars_eq, chars_of, owned, push_str, str_eq};

verus! {

/// The name of a mode as stored in the state and the registry.
pub open spec fn mode_text(mode: Mode) -> Seq<char> {
    match mode {
        Mode::Staging => "staging"@,
        Mode::Migrate => "migrate"@,
    }
}

/// The name of a mode as stored in the state and the registry.
pub fn mode_name(mode: &Mode) -> (r: &'static str)
    ensures
        r@ == mode_text(*mode),
{
    match mode {
        Mode::Staging => "staging",
        Mode::Migrate => "migrate",
    }
}

/// The copy strategy to use for one recorded by an older version: on Linux every strategy
/// (the legacy `Buffered` and `Native` among them) runs as `Auto`.
pub fn normalize_legacy_copy_strategy(strategy: CopyStrategy) -> (r: CopyStrategy)
    ensures
        r == CopyStrategy::Auto,
{
    match strategy {
        CopyStrategy::Auto => CopyStrategy::Auto,
        CopyStrategy::Native => CopyStrategy::Auto,
        CopyStrategy::Buffered => CopyStrategy::Auto,
    }
}

/// Normalizes the copy strategy recorded in a loaded state.
pub fn normalize_legacy_state_copy_strategy(state: &mut MigrationState)
    ensures
        *final(state) == (MigrationState { copy_strategy: CopyStrategy::Auto, ..*old(state) }),
{
    state.copy_strategy = normalize_legacy_copy_strategy(state.copy_strategy);
}

/// Records the runtime settings of `config` in the state.
pub fn apply_transfer_config(state: &mut MigrationState, config: &TransferConfig)
    ensures
        *final(state) == (MigrationState {
            batch_size_bytes: config.batch_size_bytes,
            max_files: config.max_files,
            snapshot_every: config.snapshot_every,
            snapshot_dir: config.snapshot_dir,
            copy_strategy: config.copy_strategy,
            ..*old(state)
        }),
{
    state.batch_size_bytes = config.batch_size_bytes;
    state.max_files = config.max_files;
    state.snapshot_every = config.snapshot_every;
    state.snapshot_dir = config.snapshot_dir.clone();
    state.copy_strategy = config.copy_strategy;
}

/// The state of a batch that is planned and nothing more.
pub open spec fn is_planned_state(b: BatchState, id: Seq<char>) -> bool {
    &&& b.batch_id@ == id
    &&& b.phase == BatchPhase::Planned
    &&& !b.verification_passed
    &&& !b.approved_for_delete
    &&& !b.deleted
}

/// A batch state that is planned and nothing more: not verified, approved or deleted.
pub fn planned_batch_state(batch_id: &str) -> (r: BatchState)
    ensures
        is_planned_state(r, batch_id@),
{
    BatchState {
        batch_id: owned(batch_id),
        phase: BatchPhase::Planned,
        verification_passed: false,
        approved_for_delete: false,
        deleted: false,
    }
}

/// Whether some manifest entry is named `id`.
pub open spec fn has_planned(planned: Seq<PlannedBatch>, id: Seq<char>) -> bool {
    exists|i: int| 0 <= i < planned.len() && (#[trigger] planned[i]).batch_id@ == id
}

/// Whether some batch state is named `id`.
pub open spec fn has_state(batches: Seq<BatchState>, id: Seq<char>) -> bool {
    exists|i: int| 0 <= i < batches.len() && (#[trigger] batches[i]).batch_id@ == id
}

/// Every batch of the plan has a manifest entry and a batch state.
pub open spec fn plan_seeded(state: MigrationState, plan: Seq<Batch>) -> bool {
    forall|k: int|
        0 <= k < plan.len() ==> has_planned(state.planned_batches@, (#[trigger] plan[k]).id@) && has_state(
            state.batches@,
            plan[k].id@,
        )
}

proof fn lemma_planned_of_present(planned: Seq<PlannedBatch>, id: Seq<char>)
    ensures
        (planned_of(planned, id) is Some) == has_planned(planned, id),
{
    let ids = planned_ids(planned);
    if has_planned(planned, id) {
        let i = choose|i: int| 0 <= i < planned.len() && (#[trigger] planned[i]).batch_id@ == id;
        assert(ids[i] == id);
        lemma_first_index_exists(ids, id, i);
    } else if first_index(ids, id) >= 0 {
        let k = first_index(ids, id);
        assert(is_first_index(ids, id, k));
        assert(planned[k].batch_id@ == id);
    }
}

proof fn lemma_batch_of_present(batches: Seq<BatchState>, id: Seq<char>)
    ensures
        (batch_of(batches, id) is Some) == has_state(batches, id),
{
    let ids = batch_ids(batches);
    if has_state(batches, id) {
        let i = choose|i: int| 0 <= i < batches.len() && (#[trigger] batches[i]).batch_id@ == id;
        assert(ids[i] == id);
        lemma_first_index_exists(ids, id, i);
    } else if first_index(ids, id) >= 0 {
        let k = first_index(ids, id);
        assert(is_first_index(ids, id, k));
        assert(batches[k].batch_id@ == id);
    }
}

/// Batch `k` of the plan is the first of the plan with its identifier and `present` (the
/// entries before seeding) has none for it: it is the one that gets a new entry.
pub open spec fn is_fresh(plan: Seq<Batch>, k: int, present: bool) -> bool {
    &&& !present
    &&& forall|j: int| 0 <= j < k ==> (#[trigger] plan[j]).id@ != plan[k].id@
}

/// The positions of the plan batches, among the first `n`, that get a new manifest entry when
/// seeding a manifest that holds `planned`, in plan order.
pub open spec fn planned_additions(planned: Seq<PlannedBatch>, plan: Seq<Batch>, n: int) -> Seq<int>
    decreases n,
{
    if n <= 0 {
        Seq::empty()
    } else {
        let prev = planned_additions(planned, plan, n - 1);
        if is_fresh(plan, n - 1, has_planned(planned, plan[n - 1].id@)) {
            prev.push(n - 1)
        } else {
            prev
        }
    }
}

/// The positions of the plan batches, among the first `n`, that get a new batch state when
/// seeding states `batches`, in plan order.
pub open spec fn state_additions(batches: Seq<BatchState>, plan: Seq<Batch>, n: int) -> Seq<int>
    decreases n,
{
    if n <= 0 {
        Seq::empty()
    } else {
        let prev = state_additions(batches, plan, n - 1);
        if is_fresh(plan, n - 1, has_state(batches, plan[n - 1].id@)) {
            prev.push(n - 1)
        } else {
            prev
        }
    }
}

proof fn lemma_planned_additions_range(planned: Seq<PlannedBatch>, plan: Seq<Batch>, n: int)
    requires
        0 <= n <= plan.len(),
    ensures
        forall|t: int| 0 <= t < planned_additions(planned, plan, n).len() ==> 0 <= #[trigger] planned_additions(planned, plan, n)[t] < n,
    decreases n,
{
    if n > 0 {
        lemma_planned_additions_range(planned, plan, n - 1);
        let prev = planned_additions(planned, plan, n - 1);
        let cur = planned_additions(planned, plan, n);
        assert forall|t: int| 0 <= t < cur.len() implies 0 <= #[trigger] cur[t] < n by {
            if t < prev.len() {
                assert(cur[t] == prev[t]);
            }
        }
    }
}

proof fn lemma_state_additions_range(batches: Seq<BatchState>, plan: Seq<Batch>, n: int)
    requires
        0 <= n <= plan.len(),
    ensures
        forall|t: int| 0 <= t < state_additions(batches, plan, n).len() ==> 0 <= #[trigger] state_additions(batches, plan, n)[t] < n,
    decreases n,
{
    if n > 0 {
        lemma_state_additions_range(batches, plan, n - 1);
        let prev = state_additions(batches, plan, n - 1);
        let cur = state_additions(batches, plan, n);
        assert forall|t: int| 0 <= t < cur.len() implies 0 <= #[trigger] cur[t] < n by {
            if t < prev.len() {
                assert(cur[t] == prev[t]);
            }
        }
    }
}

/// `after` is `before` seeded from `plan`: every batch of the plan has a manifest entry and a
/// batch state; entries already there are kept; after them comes exactly one new manifest
/// entry, and one new planned batch state, for each plan batch that had none (the first plan
/// batch of each such identifier), in plan order; a state already seeded is left as it is.
pub open spec fn seeds(before: MigrationState, after: MigrationState, plan: Seq<Batch>) -> bool {
    &&& plan_seeded(after, plan)
    &&& plan_seeded(before, plan) ==> after == before
    &&& after.planned_batches@.take(before.planned_batches@.len() as int) == before.planned_batches@
    &&& after.batches@.take(before.batches@.len() as int) == before.batches@
    &&& after.planned_batches@.len() == before.planned_batches@.len() + planned_additions(
        before.planned_batches@,
        plan,
        plan.len() as int,
    ).len()
    &&& forall|t: int|
        0 <= t < planned_additions(before.planned_batches@, plan, plan.len() as int).len() ==> after.planned_batches@[before.planned_batches@.len() + t].records(
            plan[#[trigger] planned_additions(before.planned_batches@, plan, plan.len() as int)[t]],
        )
    &&& after.batches@.len() == before.batches@.len() + state_additions(before.batches@, plan, plan.len() as int).len()
    &&& forall|t: int|
        0 <= t < state_additions(before.batches@, plan, plan.len() as int).len() ==> is_planned_state(
            after.batches@[before.batches@.len() + t],
            plan[#[trigger] state_additions(before.batches@, plan, plan.len() as int)[t]].id@,
        )
    &&& after.mode == before.mode
    &&& after.source == before.source
    &&& after.destination == before.destination
    &&& after.migration_phase == before.migration_phase
    &&& after.journal@ == before.journal@
}

proof fn lemma_planned_presence(s0p: Seq<PlannedBatch>, cur: Seq<PlannedBatch>, plan: Seq<Batch>, i: int)
    requires
        0 <= i < plan.len(),
        cur.take(s0p.len() as int) == s0p,
        cur.len() == s0p.len() + planned_additions(s0p, plan, i).len(),
        forall|t: int|
            0 <= t < planned_additions(s0p, plan, i).len() ==> cur[s0p.len() + t].records(
                plan[#[trigger] planned_additions(s0p, plan, i)[t]],
            ),
        forall|k: int| 0 <= k < i ==> has_planned(cur, (#[trigger] plan[k]).id@),
    ensures
        has_planned(cur, plan[i].id@) == !is_fresh(plan, i, has_planned(s0p, plan[i].id@)),
{
    let id = plan[i].id@;
    lemma_planned_additions_range(s0p, plan, i);
    if has_planned(s0p, id) {
        let w = choose|w: int| 0 <= w < s0p.len() && (#[trigger] s0p[w]).batch_id@ == id;
        assert(cur[w] == cur.take(s0p.len() as int)[w]);
        assert(has_planned(cur, id));
    } else if exists|j: int| 0 <= j < i && (#[trigger] plan[j]).id@ == id {
        let j = choose|j: int| 0 <= j < i && (#[trigger] plan[j]).id@ == id;
        assert(has_planned(cur, plan[j].id@));
    } else {
        assert(is_fresh(plan, i, has_planned(s0p, id)));
        if has_planned(cur, id) {
            let w = choose|w: int| 0 <= w < cur.len() && (#[trigger] cur[w]).batch_id@ == id;
            if w < s0p.len() {
                assert(cur[w] == cur.take(s0p.len() as int)[w]);
                assert(s0p[w].batch_id@ == id);
            } else {
                let t = w - s0p.len();
                let pa = planned_additions(s0p, plan, i);
                assert(cur[s0p.len() + t].records(plan[pa[t]]));
                assert(0 <= pa[t] < i);
                assert(plan[pa[t]].id@ == id);
            }
        }
    }
}

proof fn lemma_state_presence(s0b: Seq<BatchState>, cur: Seq<BatchState>, plan: Seq<Batch>, i: int)
    requires
        0 <= i < plan.len(),
        cur.take(s0b.len() as int) == s0b,
        cur.len() == s0b.len() + state_additions(s0b, plan, i).len(),
        forall|t: int|
            0 <= t < state_additions(s0b, plan, i).len() ==> is_planned_state(
                cur[s0b.len() + t],
                plan[#[trigger] state_additions(s0b, plan, i)[t]].id@,
            ),
        forall|k: int| 0 <= k < i ==> has_state(cur, (#[trigger] plan[k]).id@),
    ensures
        has_state(cur, plan[i].id@) == !is_fresh(plan, i, has_state(s0b, plan[i].id@)),
{
    let id = plan[i].id@;
    lemma_state_additions_range(s0b, plan, i);
    if has_state(s0b, id) {
        let w = choose|w: int| 0 <= w < s0b.len() && (#[trigger] s0b[w]).batch_id@ == id;
        assert(cur[w] == cur.take(s0b.len() as int)[w]);
        assert(has_state(cur, id));
    } else if exists|j: int| 0 <= j < i && (#[trigger] plan[j]).id@ == id {
        let j = choose|j: int| 0 <= j < i && (#[trigger] plan[j]).id@ == id;
        assert(has_state(cur, plan[j].id@));
    } else {
        assert(is_fresh(plan, i, has_state(s0b, id)));
        if has_state(cur, id) {
            let w = choose|w: int| 0 <= w < cur.len() && (#[trigger] cur[w]).batch_id@ == id;
            if w < s0b.len() {
                assert(cur[w] == cur.take(s0b.len() as int)[w]);
                assert(s0b[w].batch_id@ == id);
            } else {
                let t = w - s0b.len();
                let sa = state_additions(s0b, plan, i);
                assert(is_planned_state(cur[s0b.len() + t], plan[sa[t]].id@));
                assert(0 <= sa[t] < i);
                assert(plan[sa[t]].id@ == id);
            }
        }
    }
}

/// Gives every batch of the plan a manifest entry and a batch state where it has none;
/// entries already there are kept as they are, new ones are appended.
pub fn seed_state_batches(state: &mut MigrationState, plan: &PlanningSnapshot)
    ensures
        seeds(*old(state), *final(state), plan.batches@),
{
    let ghost s0 = *state;
    let ghost pl = plan.batches@;
    let mut i: usize = 0;
    while i < plan.batches.len()
        invariant
            i <= pl.len(),
            pl == plan.batches@,
            s0 == *old(state),
            forall|k: int|
                0 <= k < i ==> has_planned(state.planned_batches@, (#[trigger] pl[k]).id@) && has_state(
                    state.batches@,
                    pl[k].id@,
                ),
            plan_seeded(s0, pl) ==> *state == s0,
            state.planned_batches@.take(s0.planned_batches@.len() as int) == s0.planned_batches@,
            state.batches@.take(s0.batches@.len() as int) == s0.batches@,
            state.planned_batches@.len() == s0.planned_batches@.len() + planned_additions(
                s0.planned_batches@,
                pl,
                i as int,
            ).len(),
            forall|t: int|
                0 <= t < planned_additions(s0.planned_batches@, pl, i as int).len()
                    ==> state.planned_batches@[s0.planned_batches@.len() + t].records(
                    pl[#[trigger] planned_additions(s0.planned_batches@, pl, i as int)[t]],
                ),
            state.batches@.len() == s0.batches@.len() + state_additions(s0.batches@, pl, i as int).len(),
            forall|t: int|
                0 <= t < state_additions(s0.batches@, pl, i as int).len() ==> is_planned_state(
                    state.batches@[s0.batches@.len() + t],
                    pl[#[trigger] state_additions(s0.batches@, pl, i as int)[t]].id@,
                ),
            state.mode == s0.mode,
            state.source == s0.source,
            state.destination == s0.destination,
            state.migration_phase == s0.migration_phase,
            state.journal@ == s0.journal@,
        decreases plan.batches.len() - i,
    {
        let batch = &plan.batches[i];
        let ghost before = *state;
        let ghost pa = planned_additions(s0.planned_batches@, pl, i as int);
        let ghost sa = state_additions(s0.batches@, pl, i as int);
        proof {
            lemma_planned_of_present(state.planned_batches@, batch.id@);
            lemma_batch_of_present(state.batches@, batch.id@);
            lemma_planned_presence(s0.planned_batches@, state.planned_batches@, pl, i as int);
            lemma_state_presence(s0.batches@, state.batches@, pl, i as int);
        }
        if state.planned_batch(batch.id.as_str()).is_none() {
            let entry = PlannedBatch::from_batch(batch);
            state.upsert_planned_batch(entry);
            proof {
                let ps = state.planned_batches@;
                assert(ps == before.planned_batches@.push(entry));
                assert(ps[before.planned_batches@.len() as int].batch_id@ == batch.id@);
                assert(ps.take(s0.planned_batches@.len() as int) =~= s0.planned_batches@) by {
                    assert(before.planned_batches@.take(s0.planned_batches@.len() as int) == s0.planned_batches@);
                }
                assert forall|k: int|
                    0 <= k < i implies has_planned(ps, (#[trigger] pl[k]).id@) by {
                    let w = choose|w: int|
                        0 <= w < before.planned_batches@.len() && (#[trigger] before.planned_batches@[w]).batch_id@
                            == pl[k].id@;
                    assert(ps[w] == before.planned_batches@[w]);
                }
                let npa = planned_additions(s0.planned_batches@, pl, i + 1);
                assert(npa == pa.push(i as int));
                assert forall|t: int| 0 <= t < npa.len() implies ps[s0.planned_batches@.len() + t].records(
                    pl[#[trigger] npa[t]],
                ) by {
                    if t < pa.len() {
                        assert(npa[t] == pa[t]);
                        assert(ps[s0.planned_batches@.len() + t] == before.planned_batches@[s0.planned_batches@.len() + t]);
                    }
                }
            }
        } else {
            proof {
                assert(planned_additions(s0.planned_batches@, pl, i + 1) == pa);
            }
        }
        let ghost mid = *state;
        if state.batch(batch.id.as_str()).is_none() {
            let st = planned_batch_state(batch.id.as_str());
            state.upsert_batch(st);
            proof {
                lemma_batch_of_present(mid.batches@, batch.id@);
                let bs = state.batches@;
                let k0 = first_index(batch_ids(mid.batches@), st.batch_id@);
                if k0 >= 0 {
                    assert(is_first_index(batch_ids(mid.batches@), st.batch_id@, k0));
                    assert(mid.batches@[k0].batch_id@ == batch.id@);
                }
                assert(bs == mid.batches@.push(st));
                assert(bs.take(s0.batches@.len() as int) =~= s0.batches@) by {
                    assert(mid.batches@.take(s0.batches@.len() as int) == s0.batches@);
                }
                assert forall|k: int| 0 <= k < i implies has_state(bs, (#[trigger] pl[k]).id@) by {
                    let w = choose|w: int|
                        0 <= w < mid.batches@.len() && (#[trigger] mid.batches@[w]).batch_id@
                            == pl[k].id@;
                    assert(bs[w] == mid.batches@[w]);
                }
                assert(bs[mid.batches@.len() as int].batch_id@ == batch.id@);
                let nsa = state_additions(s0.batches@, pl, i + 1);
                assert(nsa == sa.push(i as int));
                assert forall|t: int| 0 <= t < nsa.len() implies is_planned_state(
                    bs[s0.batches@.len() + t],
                    pl[#[trigger] nsa[t]].id@,
                ) by {
                    if t < sa.len() {
                        assert(nsa[t] == sa[t]);
                        assert(bs[s0.batches@.len() + t] == mid.batches@[s0.batches@.len() + t]);
                    }
                }
                assert(has_planned(state.planned_batches@, batch.id@));
            }
        } else {
            proof {
                assert(state_additions(s0.batches@, pl, i + 1) == sa);
            }
        }
        proof {
            lemma_planned_of_present(state.planned_batches@, batch.id@);
            lemma_batch_of_present(state.batches@, batch.id@);
            if plan_seeded(s0, pl) {
                assert(has_planned(s0.planned_batches@, pl[i as int].id@));
                assert(has_state(s0.batches@, pl[i as int].id@));
            }
        }
        i = i + 1;
    }
}

/// Seeding is idempotent: seeding again from the same plan changes nothing, so seeding twice
/// gives what seeding once gives.
pub proof fn lemma_seed_idempotent(s0: MigrationState, s1: MigrationState, s2: MigrationState, plan: Seq<Batch>)
    requires
        seeds(s0, s1, plan),
        seeds(s1, s2, plan),
    ensures
        s2 == s1,
{
}

/// Whether the state holds an immutable manifest (planned batches or skipped files).
pub fn state_has_manifest(state: &MigrationState) -> (r: bool)
    ensures
        r == (state.planned_batches@.len() > 0 || state.skipped_completed_files@.len() > 0),
{
    state.planned_batches.len() > 0 || state.skipped_completed_files.len() > 0
}

/// `after` is `before` with the manifest replaced by records of `plan`'s batches, in order.
pub open spec fn manifest_seeded(before: MigrationState, after: MigrationState, plan: Seq<Batch>) -> bool {
    &&& after == (MigrationState { planned_batches: after.planned_batches, ..before })
    &&& after.planned_batches@.len() == plan.len()
    &&& forall|k: int| 0 <= k < plan.len() ==> (#[trigger] after.planned_batches@[k]).records(plan[k])
}

/// `r` is what checking manifest `manifest` against `plan` gives.
pub open spec fn manifest_check_result(manifest: Seq<PlannedBatch>, plan: Seq<Batch>, r: Result<bool, CaravanError>) -> bool {
    match manifest_drift(manifest, plan) {
        Some(t) => r is Err && is_invalid_args(r->Err_0, t),
        None => r == Ok::<bool, CaravanError>(false),
    }
}

/// Before a transfer: a state without a manifest (no planned batch and no skipped file) gets
/// the plan's batches as its manifest, and `Ok(true)` says it was seeded; otherwise the plan is
/// checked against the manifest, the state is left as it is, and the drift (if any) is the
/// error, `Ok(false)` when there is none.
pub fn seed_or_check_manifest(state: &mut MigrationState, plan: &PlanningSnapshot) -> (r: Result<bool, CaravanError>)
    ensures
        !(old(state).planned_batches@.len() > 0 || old(state).skipped_completed_files@.len() > 0) ==> r
            == Ok::<bool, CaravanError>(true) && manifest_seeded(*old(state), *final(state), plan.batches@),
        (old(state).planned_batches@.len() > 0 || old(state).skipped_completed_files@.len() > 0) ==> *final(state)
            == *old(state) && manifest_check_result(old(state).planned_batches@, plan.batches@, r),
{
    if state_has_manifest(state) {
        match ensure_manifest_matches_snapshot(&state.planned_batches, plan) {
            Ok(()) => Ok(false),
            Err(e) => Err(e),
        }
    } else {
        state.planned_batches = planned_batches_from_snapshot(plan);
        Ok(true)
    }
}

/// On resume: a state without planned batches gets the plan's batches as its manifest, and
/// `Ok(true)` says it was seeded; otherwise the plan is checked against the manifest, the
/// state is left as it is, and the drift (if any) is the error, `Ok(false)` when there is none.
pub fn seed_or_check_resume_manifest(state: &mut MigrationState, plan: &PlanningSnapshot) -> (r: Result<
    bool,
    CaravanError,
>)
    ensures
        old(state).planned_batches@.len() == 0 ==> r == Ok::<bool, CaravanError>(true) && manifest_seeded(
            *old(state),
            *final(state),
            plan.batches@,
        ),
        old(state).planned_batches@.len() > 0 ==> *final(state) == *old(state) && manifest_check_result(
            old(state).planned_batches@,
            plan.batches@,
            r,
        ),
{
    if state.planned_batches.len() > 0 {
        match ensure_manifest_matches_snapshot(&state.planned_batches, plan) {
            Ok(()) => Ok(false),
            Err(e) => Err(e),
        }
    } else {
        state.planned_batches = planned_batches_from_snapshot(plan);
        Ok(true)
    }
}

/// Whether the state holds nothing yet: no manifest, no batch, no skipped file.
pub fn state_is_empty_for_completed_file_filtering(state: &MigrationState) -> (r: bool)
    ensures
        r == (state.planned_batches@.len() == 0 && state.batches@.len() == 0
            && state.skipped_completed_files@.len() == 0),
{
    state.planned_batches.len() == 0 && state.batches.len() == 0 && state.skipped_completed_files.len() == 0
}

/// Whether a loaded state belongs to this run: the same mode (in any ASCII case) and the same
/// source and destination once their backslashes are turned into slashes. The paths are given
/// as the caller resolved them (canonicalized where they exist).
pub open spec fn identity_matches(
    state_mode: Seq<char>,
    mode: Seq<char>,
    state_source: Seq<char>,
    source: Seq<char>,
    state_destination: Seq<char>,
    destination: Seq<char>,
) -> bool {
    &&& ascii_lowercase(state_mode) == ascii_lowercase(mode)
    &&& slashes_normalized(state_source) == slashes_normalized(source)
    &&& slashes_normalized(state_destination) == slashes_normalized(destination)
}

fn normalized_eq(a: &str, b: &str) -> (r: bool)
    ensures
        r == (slashes_normalized(a@) == slashes_normalized(b@)),
{
    let x = crate::migration_registry::normalize_path_for_state_hash(a);
    let y = crate::migration_registry::normalize_path_for_state_hash(b);
    str_eq(x.as_str(), y.as_str())
}

/// Whether a loaded state belongs to this run (see [`identity_matches`]).
pub fn state_identity_matches(
    state_mode: &str,
    mode: &str,
    state_source: &str,
    source: &str,
    state_destination: &str,
    destination: &str,
) -> (r: bool)
    ensures
        r == identity_matches(state_mode@, mode@, state_source@, source@, state_destination@, destination@),
{
    let a = ascii_lowercase_chars(&chars_of(state_mode));
    let b = ascii_lowercase_chars(&chars_of(mode));
    chars_eq(&a, &b) && normalized_eq(state_source, source) && normalized_eq(state_destination, destination)
}

/// Where a loaded state was read from.
#[derive(Debug, Clone, Copy, PartialEq, Eq, Structural)]
pub enum ReconciledStateSource {
    Primary,
    Secondary,
}

/// Which state file to load: the canonical one in the source when it exists, else the
/// compatibility copy when it exists, else none (a new state is created).
pub fn state_file_to_load(primary_exists: bool, secondary_exists: bool) -> (r: Option<ReconciledStateSource>)
    ensures
        r == if primary_exists {
            Some(ReconciledStateSource::Primary)
        } else if secondary_exists {
            Some(ReconciledStateSource::Secondary)
        } else {
            None::<ReconciledStateSource>
        },
{
    if primary_exists {
        Some(ReconciledStateSource::Primary)
    } else if secondary_exists {
        Some(ReconciledStateSource::Secondary)
    } else {
        None
    }
}

pub open spec fn identity_mismatch_text(loaded: MigrationState, mode: Seq<char>, source: Seq<char>, dest: Seq<char>) -> Seq<char> {
    "state identity mismatch: loaded state references mode='"@ + loaded.mode@ + "' source='"@
        + loaded.source@ + "' destination='"@ + loaded.destination@ + "' but current command is mode='"@
        + mode + "' source='"@ + source + "' destination='"@ + dest + "'"@
}

/// The error for a loaded state that belongs to another run.
pub fn identity_mismatch_error(loaded_state: &MigrationState, mode: &str, source: &str, dest: &str) -> (r: CaravanError)
    ensures
        is_invalid_args(r, identity_mismatch_text(*loaded_state, mode@, source@, dest@)),
{
    let mut m = owned("state identity mismatch: loaded state references mode='");
    push_str(&mut m, loaded_state.mode.as_str());
    push_str(&mut m, "' source='");
    push_str(&mut m, loaded_state.source.as_str());
    push_str(&mut m, "' destination='");
    push_str(&mut m, loaded_state.destination.as_str());
    push_str(&mut m, "' but current command is mode='");
    push_str(&mut m, mode);
    push_str(&mut m, "' source='");
    push_str(&mut m, source);
    push_str(&mut m, "' destination='");
    push_str(&mut m, dest);
    push_str(&mut m, "'");
    CaravanError::InvalidArguments(m)
}

/// What to do with a loaded state that belongs to another run: the canonical (primary) state
/// fails closed; a mismatching compatibility backup is ignored and a fresh state begins.
pub fn handle_state_identity_mismatch(
    mode: &str,
    source: &str,
    dest: &str,
    loaded_from: ReconciledStateSource,
    loaded_state: &MigrationState,
) -> (r: Result<MigrationState, CaravanError>)
    ensures
        loaded_from == ReconciledStateSource::Primary ==> r is Err && is_invalid_args(
            r->Err_0,
            identity_mismatch_text(*loaded_state, mode@, source@, dest@),
        ),
        loaded_from == ReconciledStateSource::Secondary ==> r is Ok && r->Ok_0.mode@ == mode@
            && r->Ok_0.source@ == source@ && r->Ok_0.destination@ == dest@ && r->Ok_0.batches@.len() == 0
            && r->Ok_0.planned_batches@.len() == 0 && r->Ok_0.migration_phase
            == crate::models::state::MigrationPhase::NotStarted,
{
    match loaded_from {
        ReconciledStateSource::Primary => Err(identity_mismatch_error(loaded_state, mode, source, dest)),
        ReconciledStateSource::Secondary => Ok(MigrationState::new(mode, source, dest)),
    }
}

pub open spec fn unknown_mode_text(mode: Seq<char>) -> Seq<char> {
    "Unknown mode in state: "@ + mode
}

/// The run configuration that resumes a state: its mode (which must be `staging` or
/// `migrate`), paths and batching, interactive approval, conflicts skipped file by file,
/// and the legacy copy strategy normalized.
pub fn transfer_config_from_state(state: &MigrationState, recover_failed: bool) -> (r: Result<TransferConfig, CaravanError>)
    ensures
        state.mode@ != "staging"@ && state.mode@ != "migrate"@ ==> r is Err && is_invalid_args(
            r->Err_0,
            unknown_mode_text(state.mode@),
        ),
        state.mode@ == "staging"@ || state.mode@ == "migrate"@ ==> r is Ok && {
            let c = r->Ok_0;
            &&& c.mode == (if state.mode@ == "staging"@ {
                Mode::Staging
            } else {
                Mode::Migrate
            })
            &&& c.source == state.source
            &&& c.dest == state.destination
            &&& c.batch_size_bytes == state.batch_size_bytes
            &&& c.max_files == state.max_files
            &&& c.snapshot_every == state.snapshot_every
            &&& c.snapshot_dir == state.snapshot_dir
            &&& c.interactive
            &&& c.log_level@ == "info"@
            &&& !c.skip_conflicts
            &&& c.conflict_policy == ConflictPolicy::SkipFile
            &&& c.recover_failed == recover_failed
            &&& !c.allow_unsafe_filesystems
            &&& c.copy_strategy == CopyStrategy::Auto
        },
{
    let copy_strategy = normalize_legacy_copy_strategy(state.copy_strategy);
    let mode = if str_eq(state.mode.as_str(), "staging") {
        Mode::Staging
    } else if str_eq(state.mode.as_str(), "migrate") {
        Mode::Migrate
    } else {
        let mut m = owned("Unknown mode in state: ");
        push_str(&mut m, state.mode.as_str());
        return Err(CaravanError::InvalidArguments(m));
    };
    Ok(TransferConfig {
        mode,
        source: state.source.clone(),
        dest: state.destination.clone(),
        batch_size_bytes: state.batch_size_bytes,
        max_files: state.max_files,
        snapshot_every: state.snapshot_every,
        snapshot_dir: state.snapshot_dir.clone(),
        interactive: true,
        log_level: owned("info"),
        skip_conflicts: false,
        conflict_policy: ConflictPolicy::SkipFile,
        recover_failed,
        allow_unsafe_filesystems: false,
        copy_strategy,
    })
}

} // verus!
