//! Finding an existing state file, and checking it against the command line.

use vstd::prelude::*;

use crate::error::CaravanError;
use crate::models::state::MigrationState;
use crate::paths::{join, join_paths};
use crate::plan::batching::is_invalid_args;
use crate::prompt::PromptBackend;
use crate::cli::args::{format_size_error, size_error_text};
use crate::size::{parse_size, size_parse};
use crate::text::{decimal, owned, push_decimal_str, push_str};

pub use crate::prompt::BatchSizeMismatchChoice;

verus! {

/// Where a state file was found.
#[derive(Debug, Clone, Copy, PartialEq, Eq, Structural)]
pub enum StateLocation {
    Source,
    Destination,
    CurrentDir,
}

/// The places where a state file is looked for, in order: in the source, in the destination,
/// and in the current directory.
pub open spec fn state_candidates(source: Seq<char>, dest: Seq<char>) -> Seq<Seq<char>> {
    seq![join(source, ".caravan/state.json"@), join(dest, ".caravan/state.json"@), ".caravan/state.json"@]
}

/// The places where a state file is looked for, in the order of [`state_candidates`].
pub fn state_file_candidates(source: &str, dest: &str) -> (r: Vec<String>)
    ensures
        r.deep_view() == state_candidates(source@, dest@),
{
    let mut v: Vec<String> = Vec::new();
    v.push(join_paths(source, ".caravan/state.json"));
    v.push(join_paths(dest, ".caravan/state.json"));
    v.push(owned(".caravan/state.json"));
    assert(v.deep_view() =~= state_candidates(source@, dest@));
    v
}

/// The first place, in the order of [`state_candidates`], where a state file exists:
/// `exists[i]` tells whether candidate `i` exists.
pub fn detect_state_file(source: &str, dest: &str, exists: &Vec<bool>) -> (r: Option<String>)
    requires
        exists@.len() == 3,
    ensures
        match r {
            Some(p) => exists|i: int|
                0 <= i < 3 && exists@[i] && p@ == (#[trigger] state_candidates(source@, dest@)[i]) && forall|j: int|
                    0 <= j < i ==> !exists@[j],
            None => !exists@[0] && !exists@[1] && !exists@[2],
        },
{
    let candidates = state_file_candidates(source, dest);
    assert(candidates.deep_view().len() == 3);
    assert(candidates@.len() == 3);
    let mut i: usize = 0;
    while i < 3
        invariant
            i <= 3,
            exists@.len() == 3,
            candidates.deep_view() == state_candidates(source@, dest@),
            candidates@.len() == 3,
            forall|j: int| 0 <= j < i ==> !exists@[j],
        decreases 3 - i,
    {
        if exists[i] {
            let p = candidates[i].clone();
            assert(p@ == candidates.deep_view()[i as int]);
            return Some(p);
        }
        i = i + 1;
    }
    None
}

/// The message when the state and the command line disagree on the batch size.
pub open spec fn batch_size_mismatch_text(state_size: u64, cli_size: u64) -> Seq<char> {
    "Batch size mismatch: state has "@ + decimal(state_size as nat) + " bytes, CLI specifies "@
        + decimal(cli_size as nat) + " bytes"@
}

/// Accepts a loaded state when it records no batch size or the same one as the command line.
pub fn check_state_file_compatibility(state: MigrationState, cli_batch_size: u64) -> (r: Result<
    MigrationState,
    CaravanError,
>)
    ensures
        state.batch_size_bytes == 0 || state.batch_size_bytes == cli_batch_size ==> r == Ok::<
            MigrationState,
            CaravanError,
        >(state),
        state.batch_size_bytes != 0 && state.batch_size_bytes != cli_batch_size ==> r is Err
            && is_invalid_args(r->Err_0, batch_size_mismatch_text(state.batch_size_bytes, cli_batch_size)),
{
    if state.batch_size_bytes == 0 || state.batch_size_bytes == cli_batch_size {
        return Ok(state);
    }
    let mut text = owned("Batch size mismatch: state has ");
    push_decimal_str(&mut text, state.batch_size_bytes);
    push_str(&mut text, " bytes, CLI specifies ");
    push_decimal_str(&mut text, cli_batch_size);
    push_str(&mut text, " bytes");
    Err(CaravanError::InvalidArguments(text))
}

/// Asks the operator how to go on when the batch sizes disagree.
pub fn handle_batch_size_mismatch(prompt: &dyn PromptBackend, state_batch_size: u64, cli_batch_size: u64) -> (r: Result<
    BatchSizeMismatchChoice,
    CaravanError,
>) {
    prompt.ask_batch_size_mismatch(state_batch_size, cli_batch_size)
}

/// Reads a batch size typed by the operator (see [`parse_size`]).
pub fn parse_batch_size_input(input: &str) -> (r: Result<u64, CaravanError>)
    ensures
        match size_parse(input@) {
            Ok(v) => r == Ok::<u64, CaravanError>(v),
            Err(e) => r is Err && is_invalid_args(r->Err_0, size_error_text("batch-size"@, e)),
        },
{
    match parse_size(input) {
        Ok(v) => Ok(v),
        Err(e) => Err(CaravanError::InvalidArguments(format_size_error("batch-size", e))),
    }
}

} // verus!
