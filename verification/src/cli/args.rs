//! Values given on the command line that need reading: byte sizes.

use vstd::prelude::*;

use crate::size::{parse_size, size_parse, SizeParseError};
use crate::text::{owned, push_str};

verus! {

/// The message for a size that cannot be read, for the option named `label`.
pub open spec fn size_error_text(label: Seq<char>, err: SizeParseError) -> Seq<char> {
    match err {
        SizeParseError::Empty => label + " cannot be empty"@,
        SizeParseError::MissingDigits => label + " must start with digits"@,
        SizeParseError::InvalidNumericPart => label + " numeric part is invalid"@,
        SizeParseError::UnsupportedUnit => "unsupported "@ + label + " unit; use B, KiB, MiB, GiB, or TiB"@,
        SizeParseError::TooLarge => label + " is too large"@,
    }
}

/// The message for a size that cannot be read, for the option named `label`.
pub fn format_size_error(label: &str, err: SizeParseError) -> (r: String)
    ensures
        r@ == size_error_text(label@, err),
{
    match err {
        SizeParseError::Empty => {
            let mut s = owned(label);
            push_str(&mut s, " cannot be empty");
            s
        },
        SizeParseError::MissingDigits => {
            let mut s = owned(label);
            push_str(&mut s, " must start with digits");
            s
        },
        SizeParseError::InvalidNumericPart => {
            let mut s = owned(label);
            push_str(&mut s, " numeric part is invalid");
            s
        },
        SizeParseError::UnsupportedUnit => {
            let mut s = owned("unsupported ");
            push_str(&mut s, label);
            push_str(&mut s, " unit; use B, KiB, MiB, GiB, or TiB");
            s
        },
        SizeParseError::TooLarge => {
            let mut s = owned(label);
            push_str(&mut s, " is too large");
            s
        },
    }
}

/// Reads a size given for the option named `label`, with its message on failure.
pub fn parse_size_with_label(input: &str, label: &str) -> (r: Result<u64, String>)
    ensures
        match size_parse(input@) {
            Ok(v) => r == Ok::<u64, String>(v),
            Err(e) => r is Err && r->Err_0@ == size_error_text(label@, e),
        },
{
    match parse_size(input) {
        Ok(v) => Ok(v),
        Err(e) => Err(format_size_error(label, e)),
    }
}

/// Reads the `--batch-size` option.
pub fn parse_batch_size(input: &str) -> (r: Result<u64, String>)
    ensures
        match size_parse(input@) {
            Ok(v) => r == Ok::<u64, String>(v),
            Err(e) => r is Err && r->Err_0@ == size_error_text("batch-size"@, e),
        },
{
    parse_size_with_label(input, "batch-size")
}

} // verus!
