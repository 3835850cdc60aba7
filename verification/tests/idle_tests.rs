use utensil::idle::{
    format_duration, idle_history_header, idle_history_rows, parse_deviceidle_history,
    parse_deviceidle_history_line, parse_idle_timestamp_seconds, rename_idle_state,
};

#[test]
fn parses_deviceidle_history_lines() {
    let entry = parse_deviceidle_history_line("  deep-idle: -1h2m3s (step)").unwrap();
    assert_eq!(entry.state, "deep-sleep");
    assert_eq!(entry.seconds_ago, Some(3723));
    assert_eq!(entry.reason, "step");
}

#[test]
fn idle_timestamps_read_in_seconds() {
    assert_eq!(parse_idle_timestamp_seconds("-1h2m3s"), Some(3723));
    assert_eq!(parse_idle_timestamp_seconds("-45s"), Some(45));
    assert_eq!(parse_idle_timestamp_seconds("-2d0h0m0s"), Some(172800));
}

#[test]
fn idle_states_get_readable_names() {
    assert_eq!(rename_idle_state("deep-idle"), "deep-sleep");
    assert_eq!(rename_idle_state("other"), "other");
}

#[test]
fn durations_read_as_hours_minutes_or_seconds() {
    assert_eq!(format_duration(3723), "1h 2m");
    assert_eq!(format_duration(125), "2m 5s");
    assert_eq!(format_duration(9), "9s");
}

#[test]
fn idle_history_table() {
    assert_eq!(
        idle_history_header(),
        "status           | duration | timestamp        | reason"
    );
    let entries = parse_deviceidle_history("  deep-idle: -1h2m3s (step)\n  light-idle: -10s (x)\n");
    assert_eq!(entries.len(), 2);
    let rows = idle_history_rows(&entries);
    assert_eq!(rows.len(), 2);
    assert!(rows[0].contains("current"));
    assert!(rows[1].contains("1h 1m"));
}
