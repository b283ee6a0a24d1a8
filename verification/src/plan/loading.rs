//! Finding one batch of a plan again when a migration resumes.

use vstd::prelude::*;

use crate::error::CaravanError;
use crate::models::batch::Batch;
use crate::models::file_entry::FileEntry;
use crate::plan::batching::{is_invalid_args, plan_batches, plan_options_error, planned_batches_for};
use crate::plan::types::PlanOptions;
use crate::text::{owned, push_str, str_eq};

verus! {

/// The message when no batch of the plan carries the requested identifier.
pub open spec fn batch_not_found_text(id: Seq<char>) -> Seq<char> {
    "Could not locate batch "@ + id + " in source directory"@
}

/// The plan options that `load_batch_definition` plans with.
pub open spec fn loading_options(batch_size_bytes: u64, max_files: Option<u64>) -> PlanOptions {
    PlanOptions {
        batch_size_bytes,
        max_files: match max_files {
            Some(v) => Some(v as usize),
            None => None,
        },
    }
}

/// `r` is the first batch of `batches` named `id`, or the not-found error when none is.
pub open spec fn found_batch(batches: Seq<Batch>, id: Seq<char>, r: Result<Batch, CaravanError>) -> bool {
    match r {
        Ok(b) => exists|k: int|
            0 <= k < batches.len() && (#[trigger] batches[k]).id@ == id && b == batches[k]
                && forall|i: int| 0 <= i < k ==> (#[trigger] batches[i]).id@ != id,
        Err(e) => is_invalid_args(e, batch_not_found_text(id)) && forall|i: int|
            0 <= i < batches.len() ==> (#[trigger] batches[i]).id@ != id,
    }
}

/// Plans `entries` (the files found under the source root) again and returns the batch named
/// `batch_id`, so that a resumed run works on the batch exactly as it was planned.
pub fn load_batch_definition(
    entries: Vec<FileEntry>,
    batch_id: &str,
    batch_size_bytes: u64,
    max_files: Option<u64>,
) -> (r: Result<Batch, CaravanError>)
    ensures
        match plan_options_error(loading_options(batch_size_bytes, max_files)) {
            Some(t) => r is Err && is_invalid_args(r->Err_0, t),
            None => exists|batches: Seq<Batch>, order: Seq<int>|
                #[trigger] planned_batches_for(batches, entries@, order, loading_options(batch_size_bytes, max_files))
                    && found_batch(batches, batch_id@, r),
        },
{
    let opts = PlanOptions {
        batch_size_bytes,
        max_files: match max_files {
            Some(v) => Some(#[verifier::truncate] (v as usize)),
            None => None,
        },
    };
    assert(opts == loading_options(batch_size_bytes, max_files));
    let mut batches = match plan_batches(entries, &opts) {
        Err(e) => {
            return Err(e);
        },
        Ok(b) => b,
    };
    let ghost planned = batches@;
    let ghost order = choose|order: Seq<int>| #[trigger] planned_batches_for(planned, entries@, order, opts);
    let mut k: usize = 0;
    while k < batches.len()
        invariant
            batches@ == planned,
            planned_batches_for(planned, entries@, order, opts),
            opts == loading_options(batch_size_bytes, max_files),
            plan_options_error(opts) is None,
            k <= planned.len(),
            forall|i: int| 0 <= i < k ==> (#[trigger] planned[i]).id@ != batch_id@,
        decreases batches.len() - k,
    {
        if str_eq(batches[k].id.as_str(), batch_id) {
            let b = batches.remove(k);
            let r: Result<Batch, CaravanError> = Ok(b);
            assert(found_batch(planned, batch_id@, r));
            return r;
        }
        k = k + 1;
    }
    let mut text = owned("Could not locate batch ");
    push_str(&mut text, batch_id);
    push_str(&mut text, " in source directory");
    let r: Result<Batch, CaravanError> = Err(CaravanError::InvalidArguments(text));
    assert(found_batch(planned, batch_id@, r));
    r
}

} // verus!
