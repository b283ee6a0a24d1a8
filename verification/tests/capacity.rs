use std::cell::Cell;

use caravan::capacity::{
    capacity_report, check_capacity_with_probe, destination_volume_root,
    format_capacity_decision_trace, system_space_probe_backend, CapacityDecision, SpaceInfo,
    SpaceProbe,
};
use caravan::error::CaravanError;
use caravan::format::format_bytes;

struct FixedProbe {
    space: SpaceInfo,
    calls: Cell<usize>,
}

impl SpaceProbe for FixedProbe {
    fn probe(&self, _destination: &str) -> Result<SpaceInfo, CaravanError> {
        self.calls.set(self.calls.get() + 1);
        Ok(self.space)
    }
}

fn space(available: u64) -> SpaceInfo {
    SpaceInfo {
        total_bytes: 1000,
        available_bytes: available,
        volume_free_bytes: available,
    }
}

#[test]
fn system_space_probe_backend_reports_fs2() {
    assert_eq!(system_space_probe_backend(), "fs2");
}

#[test]
fn destination_volume_root_maps_absolute_and_relative_paths() {
    assert_eq!(destination_volume_root("/tmp"), "/");
    assert_eq!(destination_volume_root("relative/path"), ".");
}

#[test]
fn capacity_proceeds_only_above_batch_plus_reserve() {
    let report = capacity_report(space(101), 60, 40, "fs2");
    assert_eq!(report.decision, CapacityDecision::Proceed);
    assert_eq!(report.reason, None);

    let report = capacity_report(space(100), 60, 40, "fs2");
    assert_eq!(report.decision, CapacityDecision::Abort);
    assert_eq!(
        report.reason.as_deref(),
        Some("insufficient destination space: available=100 bytes required=100 bytes (batch=60 bytes reserve=40 bytes)")
    );
}

#[test]
fn capacity_check_refuses_an_empty_batch_without_probing() {
    let probe = FixedProbe {
        space: space(10),
        calls: Cell::new(0),
    };
    let err = check_capacity_with_probe("/dst", 0, 0, &probe).expect_err("empty batch");
    assert_eq!(
        err.to_string(),
        "invalid arguments: planned batch size must be greater than zero"
    );
    assert_eq!(probe.calls.get(), 0);
}

#[test]
fn capacity_check_with_probe_records_the_custom_backend() {
    let probe = FixedProbe {
        space: space(5000),
        calls: Cell::new(0),
    };
    let report = check_capacity_with_probe("/dst", 10, 5, &probe).expect("probe succeeds");
    assert_eq!(report.probe_backend, "custom_probe");
    assert_eq!(report.decision, CapacityDecision::Proceed);
    assert_eq!(report.available_free_bytes, 5000);
    assert_eq!(probe.calls.get(), 1);
}

#[test]
fn capacity_trace_explains_an_abort() {
    let report = capacity_report(space(50), 60, 40, "fs2");
    let trace = format_capacity_decision_trace("/dst", "/real/dst", &report);
    assert_eq!(
        trace,
        "destination=/dst destination_resolved=/real/dst volume_root=/ probe_backend=fs2 total_capacity_raw_bytes=1000 available_raw_bytes=50 volume_free_raw_bytes=50 available_minus_reserve_raw_bytes=10 required_raw_bytes=100 planned_raw_bytes=60 reserve_raw_bytes=40 headroom_raw_bytes=-50 decision_rule=available_raw_bytes > required_raw_bytes decision_reason=\"available_raw_bytes(50) <= required_raw_bytes(100)\" decision=abort"
    );
}

#[test]
fn format_bytes_matches_documented_examples() {
    assert_eq!(format_bytes(0), "0 bytes");
    assert_eq!(format_bytes(1), "1 byte");
    assert_eq!(format_bytes(1023), "1023 bytes");
    assert_eq!(format_bytes(1024), "1.00 KiB");
    assert_eq!(format_bytes(1536), "1.50 KiB");
    assert_eq!(format_bytes(1073741824), "1.00 GiB");
}

#[test]
fn format_bytes_rounds_like_float_formatting() {
    for value in [
        1025u64,
        1029,
        1035,
        5 * 1024 * 1024 + 5243,
        3 * 1073741824 + 12345678,
        1099511627776,
        1099511627776 * 3 / 2,
        u64::MAX,
        (1u64 << 53) + 1,
        (1u64 << 60) + 12345,
    ] {
        let expected = if value < 1024 * 1024 {
            format!("{:.2} KiB", value as f64 / 1024.0)
        } else if value < 1024 * 1024 * 1024 {
            format!("{:.2} MiB", value as f64 / (1024.0 * 1024.0))
        } else if value < 1024 * 1024 * 1024 * 1024 {
            format!("{:.2} GiB", value as f64 / (1024.0 * 1024.0 * 1024.0))
        } else {
            format!("{:.2} TiB", value as f64 / (1024.0 * 1024.0 * 1024.0 * 1024.0))
        };
        assert_eq!(format_bytes(value), expected, "value {value}");
    }
}
