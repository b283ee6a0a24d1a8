//! Whether the destination has room for the next batch, and the trace of that decision.

use vstd::prelude::*;

use crate::error::CaravanError;
use crate::format::{bytes_text, format_bytes};
use crate::plan::batching::is_invalid_args;
use crate::text::{decimal, has_prefix, owned, push_decimal_str, push_str, starts_with_str};

verus! {

/// Go on with the batch, or stop.
#[derive(Debug, Clone, Copy, PartialEq, Eq, Structural)]
pub enum CapacityDecision {
    Proceed,
    Abort,
}

/// The figures behind a capacity decision.
#[derive(Debug, Clone, PartialEq, Eq)]
pub struct CapacityReport {
    pub total_capacity_bytes: u64,
    pub available_free_bytes: u64,
    pub volume_free_bytes: u64,
    pub planned_batch_bytes: u64,
    pub reserve_margin_bytes: u64,
    pub probe_backend: &'static str,
    pub decision: CapacityDecision,
    pub reason: Option<String>,
}

/// Space figures of the destination volume.
#[derive(Debug, Clone, Copy, PartialEq, Eq, Structural)]
pub struct SpaceInfo {
    pub total_bytes: u64,
    pub available_bytes: u64,
    pub volume_free_bytes: u64,
}

/// Tells the space figures of the volume that holds a destination.
pub trait SpaceProbe {
    /// Whether `space` is what this probe reported for `destination`: each probe may say what
    /// its answers mean; by default nothing is said of them.
    open spec fn reports(&self, destination: Seq<char>, space: SpaceInfo) -> bool {
        true
    }

    /// The figures for `destination`, or the error met while reading them.
    fn probe(&self, destination: &str) -> (r: Result<SpaceInfo, CaravanError>)
        ensures
            r is Ok ==> self.reports(destination@, r->Ok_0),
    ;
}

/// The name recorded for the system probe, which reads the figures with `fs2`.
pub fn system_space_probe_backend() -> (r: &'static str)
    ensures
        r@ == "fs2"@,
{
    "fs2"
}

/// The name recorded for a probe supplied by the caller.
pub open spec fn custom_backend() -> Seq<char> {
    "custom_probe"@
}

/// The volume root shown for a destination: `/` for an absolute path, `.` for a relative one.
pub fn destination_volume_root(destination: &str) -> (r: String)
    ensures
        r@ == if has_prefix(destination@, "/"@) {
            "/"@
        } else {
            "."@
        },
{
    if starts_with_str(destination, "/") {
        owned("/")
    } else {
        owned(".")
    }
}

/// `a + b`, or `u64::MAX` when that overflows.
pub open spec fn sat_add(a: u64, b: u64) -> nat {
    if a + b > u64::MAX {
        u64::MAX as nat
    } else {
        (a + b) as nat
    }
}

/// The message of a capacity abort.
pub open spec fn insufficient_text(available: u64, required: u64, planned: u64, reserve: u64) -> Seq<char> {
    "insufficient destination space: available="@ + bytes_text(available) + " required="@ + bytes_text(
        required,
    ) + " (batch="@ + bytes_text(planned) + " reserve="@ + bytes_text(reserve) + ")"@
}

/// `r` is the capacity report for these figures: proceed exactly when the available space
/// exceeds the batch plus the reserve.
pub open spec fn is_capacity_report(
    r: CapacityReport,
    space: SpaceInfo,
    planned: u64,
    reserve: u64,
    backend: Seq<char>,
) -> bool {
    let required = sat_add(planned, reserve);
    &&& r.total_capacity_bytes == space.total_bytes
    &&& r.available_free_bytes == space.available_bytes
    &&& r.volume_free_bytes == space.volume_free_bytes
    &&& r.planned_batch_bytes == planned
    &&& r.reserve_margin_bytes == reserve
    &&& r.probe_backend@ == backend
    &&& (r.decision == CapacityDecision::Proceed <==> space.available_bytes > required)
    &&& match r.reason {
        Some(m) => r.decision == CapacityDecision::Abort && m@ == insufficient_text(
            space.available_bytes,
            required as u64,
            planned,
            reserve,
        ),
        None => r.decision == CapacityDecision::Proceed,
    }
}

/// The capacity report for the space figures a probe gave.
pub fn capacity_report(space: SpaceInfo, planned_batch_bytes: u64, reserve_margin_bytes: u64, probe_backend: &'static str) -> (r: CapacityReport)
    ensures
        is_capacity_report(r, space, planned_batch_bytes, reserve_margin_bytes, probe_backend@),
{
    let required = planned_batch_bytes.saturating_add(reserve_margin_bytes);
    let decision = if space.available_bytes > required {
        CapacityDecision::Proceed
    } else {
        CapacityDecision::Abort
    };
    let reason = if space.available_bytes > required {
        None
    } else {
        let mut m = owned("insufficient destination space: available=");
        let a = format_bytes(space.available_bytes);
        push_str(&mut m, a.as_str());
        push_str(&mut m, " required=");
        let q = format_bytes(required);
        push_str(&mut m, q.as_str());
        push_str(&mut m, " (batch=");
        let p = format_bytes(planned_batch_bytes);
        push_str(&mut m, p.as_str());
        push_str(&mut m, " reserve=");
        let s = format_bytes(reserve_margin_bytes);
        push_str(&mut m, s.as_str());
        push_str(&mut m, ")");
        Some(m)
    };
    CapacityReport {
        total_capacity_bytes: space.total_bytes,
        available_free_bytes: space.available_bytes,
        volume_free_bytes: space.volume_free_bytes,
        planned_batch_bytes,
        reserve_margin_bytes,
        probe_backend,
        decision,
        reason,
    }
}

/// The message for an empty planned batch.
pub open spec fn zero_batch_text() -> Seq<char> {
    "planned batch size must be greater than zero"@
}

/// Checks the destination's room for a batch of `planned_batch_bytes` plus a reserve, with the
/// figures from `probe`, recorded under the backend name `probe_backend`. An empty batch is
/// refused before the probe is asked; a probe error is returned.
pub fn check_capacity_with_probe_and_backend<P: SpaceProbe + ?Sized>(
    destination: &str,
    planned_batch_bytes: u64,
    reserve_margin_bytes: u64,
    probe: &P,
    probe_backend: &'static str,
) -> (r: Result<CapacityReport, CaravanError>)
    ensures
        planned_batch_bytes == 0 ==> r is Err && is_invalid_args(r->Err_0, zero_batch_text()),
        r is Ok ==> planned_batch_bytes > 0 && exists|space: SpaceInfo|
            probe.reports(destination@, space) && #[trigger] is_capacity_report(
                r->Ok_0,
                space,
                planned_batch_bytes,
                reserve_margin_bytes,
                probe_backend@,
            ),
{
    if planned_batch_bytes == 0 {
        return Err(CaravanError::InvalidArguments(owned("planned batch size must be greater than zero")));
    }
    let space = match probe.probe(destination) {
        Ok(s) => s,
        Err(e) => {
            return Err(e);
        },
    };
    let report = capacity_report(space, planned_batch_bytes, reserve_margin_bytes, probe_backend);
    let r: Result<CapacityReport, CaravanError> = Ok(report);
    assert(is_capacity_report(r->Ok_0, space, planned_batch_bytes, reserve_margin_bytes, probe_backend@));
    r
}

/// Checks the destination's room for a batch with a probe supplied by the caller.
pub fn check_capacity_with_probe(
    destination: &str,
    planned_batch_bytes: u64,
    reserve_margin_bytes: u64,
    probe: &dyn SpaceProbe,
) -> (r: Result<CapacityReport, CaravanError>)
    ensures
        planned_batch_bytes == 0 ==> r is Err && is_invalid_args(r->Err_0, zero_batch_text()),
        r is Ok ==> planned_batch_bytes > 0 && exists|space: SpaceInfo|
            probe.reports(destination@, space) && #[trigger] is_capacity_report(
                r->Ok_0,
                space,
                planned_batch_bytes,
                reserve_margin_bytes,
                custom_backend(),
            ),
{
    let backend: &'static str = "custom_probe";
    let r = check_capacity_with_probe_and_backend(destination, planned_batch_bytes, reserve_margin_bytes, probe, backend);
    proof {
        if r is Ok {
            let space = choose|space: SpaceInfo|
                probe.reports(destination@, space) && #[trigger] is_capacity_report(
                    r->Ok_0,
                    space,
                    planned_batch_bytes,
                    reserve_margin_bytes,
                    backend@,
                );
            assert(is_capacity_report(r->Ok_0, space, planned_batch_bytes, reserve_margin_bytes, custom_backend()));
        }
    }
    r
}

/// Law: a capacity check that succeeds reports exactly the figures the probe gave for the
/// destination, records the batch and the reserve it was asked about, and proceeds exactly when
/// the probed available space exceeds the batch plus the reserve (an abort always carries its
/// reason, which states the available and the required space, the batch and the reserve; a
/// go-ahead none).
pub proof fn lemma_capacity_decision_follows_probe<P: SpaceProbe + ?Sized>(
    probe: &P,
    destination: Seq<char>,
    planned: u64,
    reserve: u64,
    backend: Seq<char>,
    report: CapacityReport,
)
    requires
        exists|space: SpaceInfo|
            probe.reports(destination, space) && #[trigger] is_capacity_report(
                report,
                space,
                planned,
                reserve,
                backend,
            ),
    ensures
        exists|space: SpaceInfo|
            #![trigger probe.reports(destination, space)]
            {
                &&& probe.reports(destination, space)
                &&& report.available_free_bytes == space.available_bytes
                &&& report.total_capacity_bytes == space.total_bytes
                &&& report.volume_free_bytes == space.volume_free_bytes
            },
        report.planned_batch_bytes == planned,
        report.reserve_margin_bytes == reserve,
        report.decision == CapacityDecision::Proceed <==> report.available_free_bytes > planned + reserve,
        report.decision == CapacityDecision::Abort <==> report.available_free_bytes <= planned + reserve,
        report.reason is None <==> report.decision == CapacityDecision::Proceed,
        report.reason matches Some(m) ==> m@ == "insufficient destination space: available="@ + bytes_text(
            report.available_free_bytes,
        ) + " required="@ + bytes_text(
            if planned + reserve > u64::MAX {
                u64::MAX
            } else {
                (planned + reserve) as u64
            },
        ) + " (batch="@ + bytes_text(planned) + " reserve="@ + bytes_text(reserve) + ")"@,
{
    let space = choose|space: SpaceInfo|
        probe.reports(destination, space) && #[trigger] is_capacity_report(report, space, planned, reserve, backend);
    assert(probe.reports(destination, space));
}

/// A signed integer in decimal.
pub open spec fn signed_decimal(v: int) -> Seq<char> {
    if v < 0 {
        "-"@ + decimal((-v) as nat)
    } else {
        decimal(v as nat)
    }
}

/// The trace line that explains a capacity decision.
pub open spec fn decision_trace_text(
    destination: Seq<char>,
    destination_resolved: Seq<char>,
    volume_root: Seq<char>,
    report: CapacityReport,
) -> Seq<char> {
    let required = sat_add(report.planned_batch_bytes, report.reserve_margin_bytes);
    let minus_reserve: nat = if report.available_free_bytes > report.reserve_margin_bytes {
        (report.available_free_bytes - report.reserve_margin_bytes) as nat
    } else {
        0
    };
    let headroom = report.available_free_bytes - required;
    let proceed = report.decision == CapacityDecision::Proceed;
    "destination="@ + destination + " destination_resolved="@ + destination_resolved + " volume_root="@
        + volume_root + " probe_backend="@ + report.probe_backend@ + " total_capacity_raw_bytes="@
        + decimal(report.total_capacity_bytes as nat) + " available_raw_bytes="@ + decimal(
        report.available_free_bytes as nat,
    ) + " volume_free_raw_bytes="@ + decimal(report.volume_free_bytes as nat)
        + " available_minus_reserve_raw_bytes="@ + decimal(minus_reserve) + " required_raw_bytes="@
        + decimal(required) + " planned_raw_bytes="@ + decimal(report.planned_batch_bytes as nat)
        + " reserve_raw_bytes="@ + decimal(report.reserve_margin_bytes as nat) + " headroom_raw_bytes="@
        + signed_decimal(headroom) + " decision_rule=available_raw_bytes > required_raw_bytes decision_reason=\""@
        + "available_raw_bytes("@ + decimal(report.available_free_bytes as nat) + (if proceed {
        ") > required_raw_bytes("@
    } else {
        ") <= required_raw_bytes("@
    }) + decimal(required) + ")\" decision="@ + (if proceed {
        "proceed"@
    } else {
        "abort"@
    })
}

/// The trace line that explains a capacity decision for `destination`, given where it
/// resolves to (`destination_resolved`, the canonical path when there is one).
#[verifier::rlimit(40)]
#[verifier::spinoff_prover]
pub fn format_capacity_decision_trace(destination: &str, destination_resolved: &str, report: &CapacityReport) -> (r: String)
    ensures
        r@ == decision_trace_text(
            destination@,
            destination_resolved@,
            if has_prefix(destination@, "/"@) {
                "/"@
            } else {
                "."@
            },
            *report,
        ),
{
    let required = report.planned_batch_bytes.saturating_add(report.reserve_margin_bytes);
    let minus_reserve = if report.available_free_bytes > report.reserve_margin_bytes {
        report.available_free_bytes - report.reserve_margin_bytes
    } else {
        0
    };
    let proceed = match report.decision {
        CapacityDecision::Proceed => true,
        CapacityDecision::Abort => false,
    };
    let root = destination_volume_root(destination);
    let mut out = owned("destination=");
    push_str(&mut out, destination);
    push_str(&mut out, " destination_resolved=");
    push_str(&mut out, destination_resolved);
    push_str(&mut out, " volume_root=");
    push_str(&mut out, root.as_str());
    push_str(&mut out, " probe_backend=");
    push_str(&mut out, report.probe_backend);
    push_str(&mut out, " total_capacity_raw_bytes=");
    push_decimal_str(&mut out, report.total_capacity_bytes);
    push_str(&mut out, " available_raw_bytes=");
    push_decimal_str(&mut out, report.available_free_bytes);
    push_str(&mut out, " volume_free_raw_bytes=");
    push_decimal_str(&mut out, report.volume_free_bytes);
    push_str(&mut out, " available_minus_reserve_raw_bytes=");
    push_decimal_str(&mut out, minus_reserve);
    push_str(&mut out, " required_raw_bytes=");
    push_decimal_str(&mut out, required);
    push_str(&mut out, " planned_raw_bytes=");
    push_decimal_str(&mut out, report.planned_batch_bytes);
    push_str(&mut out, " reserve_raw_bytes=");
    push_decimal_str(&mut out, report.reserve_margin_bytes);
    push_str(&mut out, " headroom_raw_bytes=");
    if report.available_free_bytes >= required {
        push_decimal_str(&mut out, report.available_free_bytes - required);
    } else {
        push_str(&mut out, "-");
        push_decimal_str(&mut out, required - report.available_free_bytes);
    }
    push_str(&mut out, " decision_rule=available_raw_bytes > required_raw_bytes decision_reason=\"");
    push_str(&mut out, "available_raw_bytes(");
    push_decimal_str(&mut out, report.available_free_bytes);
    if proceed {
        push_str(&mut out, ") > required_raw_bytes(");
    } else {
        push_str(&mut out, ") <= required_raw_bytes(");
    }
    push_decimal_str(&mut out, required);
    push_str(&mut out, ")\" decision=");
    if proceed {
        push_str(&mut out, "proceed");
    } else {
        push_str(&mut out, "abort");
    }
    out
}

} // verus!
