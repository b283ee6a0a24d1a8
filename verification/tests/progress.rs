use caravan::progress::{format_duration, render_bar};

#[test]
fn format_duration_handles_seconds_minutes_and_hours() {
    assert_eq!(format_duration(7), "7s");
    assert_eq!(format_duration(125), "2m 05s");
    assert_eq!(format_duration(3723), "1h 02m 03s");
}

#[test]
fn format_duration_boundaries() {
    assert_eq!(format_duration(0), "0s");
    assert_eq!(format_duration(59), "59s");
    assert_eq!(format_duration(60), "1m 00s");
    assert_eq!(format_duration(3599), "59m 59s");
    assert_eq!(format_duration(3600), "1h 00m 00s");
    assert_eq!(format_duration(360_000), "100h 00m 00s");
}

#[test]
fn render_bar_fills_and_clamps() {
    assert_eq!(render_bar(0, 5), "[     ]");
    assert_eq!(render_bar(5, 5), "[=====]");
    assert_eq!(render_bar(5, 10), "[=====     ]");
    assert_eq!(render_bar(6, 3), "[===]");
    assert_eq!(render_bar(0, 0), "[]");
}
