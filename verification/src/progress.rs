//! Reporting the progress of long operations.

use vstd::prelude::*;

use crate::text::{concat, decimal, decimal_string, push_str, zero_padded, zero_padded_string};

verus! {

/// Progress reporter for long running operations.
pub trait ProgressReporter {
    /// Optional total-byte hint for throughput reporting.
    fn set_total_bytes(&mut self, _total_bytes: u64) {
    }

    /// Called when the operation starts, with the total number of items.
    fn start(&mut self, total_items: usize, operation: &str);

    /// Called after each item is processed.
    fn advance(&mut self, current: usize, item_name: Option<&str>);

    /// Called when the operation completes successfully.
    fn finish(&mut self);
}

/// A progress reporter that reports nothing.
#[derive(Debug, Default)]
pub struct NoopProgress;

impl ProgressReporter for NoopProgress {
    fn set_total_bytes(&mut self, _total_bytes: u64) {
    }

    fn start(&mut self, _total_items: usize, _operation: &str) {
    }

    fn advance(&mut self, _current: usize, _item_name: Option<&str>) {
    }

    fn finish(&mut self) {
    }
}


/// How a duration of `secs` seconds is shown: seconds alone under a minute, then minutes and
/// two-digit seconds, then hours with two-digit minutes and seconds.
pub open spec fn duration_text(secs: nat) -> Seq<char> {
    if secs < 60 {
        decimal(secs) + "s"@
    } else if secs < 3600 {
        decimal(secs / 60) + "m "@ + zero_padded(secs % 60, 2) + "s"@
    } else {
        decimal(secs / 3600) + "h "@ + zero_padded((secs % 3600) / 60, 2) + "m "@ + zero_padded(secs % 60, 2)
            + "s"@
    }
}

/// Renders a whole number of seconds, such as `7s`, `2m 05s` or `1h 02m 03s`.
pub fn format_duration(secs: u64) -> (r: String)
    ensures
        r@ == duration_text(secs as nat),
{
    if secs < 60 {
        let mut out = decimal_string(secs);
        push_str(&mut out, "s");
        out
    } else if secs < 3600 {
        let mut out = decimal_string(secs / 60);
        push_str(&mut out, "m ");
        let padded = zero_padded_string(secs % 60, 2);
        push_str(&mut out, padded.as_str());
        push_str(&mut out, "s");
        out
    } else {
        let mut out = decimal_string(secs / 3600);
        push_str(&mut out, "h ");
        let minutes = zero_padded_string((secs % 3600) / 60, 2);
        push_str(&mut out, minutes.as_str());
        push_str(&mut out, "m ");
        let seconds = zero_padded_string(secs % 60, 2);
        push_str(&mut out, seconds.as_str());
        push_str(&mut out, "s");
        out
    }
}

/// A bar of `width` cells between brackets whose first `min(filled, width)` cells are `=`
/// and the rest spaces.
pub open spec fn bar_text(filled: nat, width: nat) -> Seq<char> {
    let f = if filled <= width { filled } else { width };
    "["@ + Seq::new(f, |i: int| '=') + Seq::new((width - f) as nat, |i: int| ' ') + "]"@
}

/// Renders a progress bar of `width` cells with `filled` of them (at most `width`) filled.
pub fn render_bar(filled: usize, width: usize) -> (r: String)
    ensures
        r@ == bar_text(filled as nat, width as nat),
{
    let f = if filled <= width { filled } else { width };
    let mut out = concat("[", "");
    proof {
        reveal_strlit("");
    }
    assert(out@ =~= "["@ + Seq::new(0, |k: int| '='));
    let mut i: usize = 0;
    while i < f
        invariant
            i <= f,
            out@ == "["@ + Seq::new(i as nat, |k: int| '='),
        decreases f - i,
    {
        push_str(&mut out, "=");
        proof {
            reveal_strlit("=");
        }
        i = i + 1;
        assert(out@ =~= "["@ + Seq::new(i as nat, |k: int| '='));
    }
    let mut j: usize = 0;
    while j < width - f
        invariant
            f <= width,
            j <= width - f,
            out@ == "["@ + Seq::new(f as nat, |k: int| '=') + Seq::new(j as nat, |k: int| ' '),
        decreases width - f - j,
    {
        push_str(&mut out, " ");
        proof {
            reveal_strlit(" ");
        }
        j = j + 1;
        assert(out@ =~= "["@ + Seq::new(f as nat, |k: int| '=') + Seq::new(j as nat, |k: int| ' '));
    }
    push_str(&mut out, "]");
    out
}

} // verus!
