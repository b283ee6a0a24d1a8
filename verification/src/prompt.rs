//! Operator approval: the prompt interface and the rules for when it is asked.

use vstd::prelude::*;

use crate::error::CaravanError;
use crate::text::{ascii_lowercase, ascii_lowercase_chars, chars_eq, chars_of, concat, push_str, trim_chars, trimmed};

verus! {

/// The operator's answer when the state file and the command line disagree on the batch size.
#[derive(Debug, Clone, Copy, PartialEq, Eq, Structural)]
pub enum BatchSizeMismatchChoice {
    UseStateSize,
    EnterNewSize,
    StartFresh,
}

/// The message for a menu answer other than 1, 2 or 3.
pub open spec fn invalid_choice_text(choice: Seq<char>) -> Seq<char> {
    "Invalid choice '"@ + choice + "'. Please enter 1, 2, or 3."@
}

/// Reads the answer to the batch size mismatch menu: `1`, `2` or `3`.
pub fn parse_batch_size_mismatch_choice(choice: &str) -> (r: Result<BatchSizeMismatchChoice, CaravanError>)
    ensures
        choice@ == seq!['1'] ==> r == Ok::<BatchSizeMismatchChoice, CaravanError>(BatchSizeMismatchChoice::UseStateSize),
        choice@ == seq!['2'] ==> r == Ok::<BatchSizeMismatchChoice, CaravanError>(BatchSizeMismatchChoice::EnterNewSize),
        choice@ == seq!['3'] ==> r == Ok::<BatchSizeMismatchChoice, CaravanError>(BatchSizeMismatchChoice::StartFresh),
        choice@ != seq!['1'] && choice@ != seq!['2'] && choice@ != seq!['3'] ==> (r is Err && (r->Err_0
            matches CaravanError::InvalidArguments(m) && m@ == invalid_choice_text(choice@))),
{
    let c = chars_of(choice);
    if c.len() == 1 && c[0] == '1' {
        assert(choice@ =~= seq!['1']);
        Ok(BatchSizeMismatchChoice::UseStateSize)
    } else if c.len() == 1 && c[0] == '2' {
        assert(choice@ =~= seq!['2']);
        Ok(BatchSizeMismatchChoice::EnterNewSize)
    } else if c.len() == 1 && c[0] == '3' {
        assert(choice@ =~= seq!['3']);
        Ok(BatchSizeMismatchChoice::StartFresh)
    } else {
        let mut m = concat("Invalid choice '", choice);
        push_str(&mut m, "'. Please enter 1, 2, or 3.");
        Err(CaravanError::InvalidArguments(m))
    }
}

/// Whether an answer, with surrounding white space removed, is `y` or `yes` in any letter case.
pub open spec fn is_yes(answer: Seq<char>) -> bool {
    let a = ascii_lowercase(trimmed(answer));
    a == seq!['y'] || a == seq!['y', 'e', 's']
}

/// Whether a yes/no answer approves: only `y` and `yes`, in any letter case, do.
pub fn parse_yes_no(answer: &str) -> (r: bool)
    ensures
        r == is_yes(answer@),
{
    let chars = chars_of(answer);
    let t = trim_chars(&chars);
    let lower = ascii_lowercase_chars(&t);
    let y: Vec<char> = vec!['y'];
    let yes: Vec<char> = vec!['y', 'e', 's'];
    assert(y@ =~= seq!['y']);
    assert(yes@ =~= seq!['y', 'e', 's']);
    chars_eq(&lower, &y) || chars_eq(&lower, &yes)
}

/// A single batch is confirmed on its own; more than one are confirmed together.
pub fn should_confirm_single_batch(batch_ids: &[String]) -> (r: bool)
    ensures
        r == (batch_ids@.len() == 1),
{
    batch_ids.len() == 1
}

/// How the operator is asked. Implemented by the interactive terminal prompt and by
/// scripted prompts; nothing is assumed of the answers.
pub trait PromptBackend {
    /// Asks whether the source files of batch `batch_id` may be deleted.
    fn confirm_deletion(&self, batch_id: &str) -> Result<bool, CaravanError>;

    /// Asks about each batch in turn, stopping at the first refusal or error.
    fn confirm_batch_deletion(&self, batch_ids: &[String]) -> (r: Result<bool, CaravanError>)
        ensures
            batch_ids@.len() == 0 ==> r == Ok::<bool, CaravanError>(true),
    {
        let mut i: usize = 0;
        while i < batch_ids.len()
            invariant
                i <= batch_ids@.len(),
            decreases batch_ids.len() - i,
        {
            match self.confirm_deletion(batch_ids[i].as_str()) {
                Err(e) => {
                    return Err(e);
                },
                Ok(false) => {
                    return Ok(false);
                },
                Ok(true) => {},
            }
            i = i + 1;
        }
        Ok(true)
    }

    /// Asks which batch size to go on with when the state and the command line disagree.
    fn ask_batch_size_mismatch(&self, state_size: u64, cli_size: u64) -> Result<
        BatchSizeMismatchChoice,
        CaravanError,
    >;
}

/// The message when interactive approval has no prompt to ask.
pub open spec fn no_backend_text() -> Seq<char> {
    "interactive approval requested but no prompt backend provided"@
}

/// The message when a destructive step has neither a prompt nor an explicit approval.
pub open spec fn blocked_text() -> Seq<char> {
    "destructive operations are blocked in non-interactive mode without explicit approval"@
}

/// `r` is the invalid-arguments error with message `text`.
pub open spec fn is_invalid_result(r: Result<bool, CaravanError>, text: Seq<char>) -> bool {
    r is Err && (r->Err_0 matches CaravanError::InvalidArguments(m) && m@ == text)
}

fn invalid_bool(text: &str) -> (r: Result<bool, CaravanError>)
    ensures
        is_invalid_result(r, text@),
{
    Err(CaravanError::InvalidArguments(String::from_str(text)))
}

/// Approval to delete the source files of one batch: an explicit approval grants it;
/// otherwise an interactive run asks the prompt, which it must have; a non-interactive run
/// without explicit approval is refused.
pub fn request_approval(
    backend: Option<&dyn PromptBackend>,
    interactive: bool,
    explicit_approval: bool,
    batch_id: &str,
) -> (r: Result<bool, CaravanError>)
    ensures
        explicit_approval ==> r == Ok::<bool, CaravanError>(true),
        !explicit_approval && interactive && backend is None ==> is_invalid_result(r, no_backend_text()),
        !explicit_approval && !interactive ==> is_invalid_result(r, blocked_text()),
{
    if explicit_approval {
        return Ok(true);
    }
    if interactive {
        return match backend {
            Some(prompt) => prompt.confirm_deletion(batch_id),
            None => invalid_bool("interactive approval requested but no prompt backend provided"),
        };
    }
    invalid_bool("destructive operations are blocked in non-interactive mode without explicit approval")
}

/// Approval to delete the source files of several batches: granted at once with explicit
/// approval or when there is nothing to delete; otherwise as for [`request_approval`], the
/// prompt confirming all the batches.
pub fn request_approval_for_batches(
    backend: Option<&dyn PromptBackend>,
    interactive: bool,
    explicit_approval: bool,
    batch_ids: &[String],
) -> (r: Result<bool, CaravanError>)
    ensures
        explicit_approval || batch_ids@.len() == 0 ==> r == Ok::<bool, CaravanError>(true),
        !explicit_approval && batch_ids@.len() > 0 && interactive && backend is None ==> is_invalid_result(
            r,
            no_backend_text(),
        ),
        !explicit_approval && batch_ids@.len() > 0 && !interactive ==> is_invalid_result(r, blocked_text()),
{
    if explicit_approval {
        return Ok(true);
    }
    if batch_ids.len() == 0 {
        return Ok(true);
    }
    if interactive {
        return match backend {
            Some(prompt) => prompt.confirm_batch_deletion(batch_ids),
            None => invalid_bool("interactive approval requested but no prompt backend provided"),
        };
    }
    invalid_bool("destructive operations are blocked in non-interactive mode without explicit approval")
}

} // verus!
