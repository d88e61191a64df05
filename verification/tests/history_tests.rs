use omakure::codec::parse_schema;
use omakure::history::{
    civil_from_days, encode_history_entry, format_output, format_timestamp, history_file_name,
    load_entries_from, safe_slug, HistoryEntry,
};

fn entry(ts: i64, script: &str) -> HistoryEntry {
    HistoryEntry {
        timestamp: ts,
        script: script.to_string(),
        args: vec!["--force".to_string(), "true".to_string()],
        success: true,
        exit_code: Some(0),
        stdout: "done\n".to_string(),
        stderr: String::new(),
        error: None,
    }
}

#[test]
fn epoch_renders_as_origin() {
    assert_eq!(format_timestamp(0), "1970-01-01 00:00");
}

#[test]
fn one_day_later_renders_next_date() {
    assert_eq!(format_timestamp(86_400_000), "1970-01-02 00:00");
}

#[test]
fn leap_day_renders_exactly() {
    // 2024-02-29 00:00:00 UTC
    assert_eq!(format_timestamp(1_709_164_800_000), "2024-02-29 00:00");
    // and with a time of day
    assert_eq!(format_timestamp(1_709_164_800_000 + 13 * 3_600_000 + 37 * 60_000), "2024-02-29 13:37");
}

#[test]
fn negative_timestamps_clamp_to_epoch() {
    assert_eq!(format_timestamp(-5), "1970-01-01 00:00");
}

#[test]
fn civil_calendar_handles_century_rules() {
    assert_eq!(civil_from_days(0), (1970, 1, 1));
    // 2000-02-29 was a leap day (divisible by 400)
    assert_eq!(civil_from_days(11016), (2000, 2, 29));
    // 1900 was not a leap year in the Gregorian calendar
    assert_eq!(format_timestamp(951_782_400_000), "2000-02-29 00:00");
}

#[test]
fn slug_collapses_and_caps() {
    assert_eq!(safe_slug("tools/Clean Up.sh"), "tools_clean_up_sh");
    assert_eq!(safe_slug("///"), "run");
    assert_eq!(safe_slug(""), "run");
    let long = "a".repeat(100);
    assert_eq!(safe_slug(&long).len(), 64);
}

#[test]
fn file_name_combines_timestamp_pid_and_slug() {
    let e = entry(1234, "tools/x.sh");
    assert_eq!(history_file_name(&e, 42), "1234-42-tools_x_sh.json");
}

#[test]
fn format_output_prefers_error_then_labels_streams() {
    let mut e = entry(0, "a.sh");
    e.error = Some("  boom  ".to_string());
    assert_eq!(format_output(&e), "boom");
    let mut f = entry(0, "a.sh");
    f.stdout = "out\n".to_string();
    f.stderr = "err\n".to_string();
    assert_eq!(format_output(&f), "STDOUT:\nout\n\nSTDERR:\nerr");
    let mut g = entry(0, "a.sh");
    g.stdout = "   ".to_string();
    g.stderr = String::new();
    assert_eq!(format_output(&g), "");
}

#[test]
fn persisting_and_reloading_keeps_every_field() {
    let mut entries = Vec::new();
    for i in 0..5i64 {
        let mut e = entry(1000 + i, &format!("s{}.sh", i));
        if i % 2 == 0 {
            e.success = false;
            e.exit_code = None;
            e.error = Some(format!("failed \"{}\"\n\ttab", i));
        }
        entries.push(e);
    }
    let files: Vec<String> = entries.iter().map(encode_history_entry).collect();
    let loaded = load_entries_from(&files);
    assert_eq!(loaded.len(), 5);
    // newest first
    for w in loaded.windows(2) {
        assert!(w[0].timestamp >= w[1].timestamp);
    }
    for e in &entries {
        let l = loaded.iter().find(|l| l.timestamp == e.timestamp).unwrap();
        assert_eq!(l.script, e.script);
        assert_eq!(l.args, e.args);
        assert_eq!(l.success, e.success);
        assert_eq!(l.exit_code, e.exit_code);
        assert_eq!(l.stdout, e.stdout);
        assert_eq!(l.stderr, e.stderr);
        assert_eq!(l.error, e.error);
    }
}

#[test]
fn corrupt_records_are_skipped_not_fatal() {
    let good = encode_history_entry(&entry(7, "ok.sh"));
    let files = vec!["not json".to_string(), good, "{\"timestamp\":1}".to_string()];
    let loaded = load_entries_from(&files);
    assert_eq!(loaded.len(), 1);
    assert_eq!(loaded[0].script, "ok.sh");
}

#[test]
fn parse_error_message_is_fixed() {
    assert_eq!(
        parse_schema("no json here").unwrap_err(),
        "Schema JSON object not found in output"
    );
}
