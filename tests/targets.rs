use capture_sidecar::targets::{
    dedupe_window_entries_by_pid, parse_decimal_isize, parse_decimal_u32, parse_target_pid,
    parse_window_source_id,
};

#[test]
fn parses_window_source_id() {
    assert_eq!(parse_window_source_id("window:1337:0"), Some(1337));
    assert_eq!(parse_window_source_id("screen:3:0"), None);
    assert_eq!(parse_window_source_id("window:not-a-number:0"), None);
}

#[test]
fn parses_target_pid() {
    assert_eq!(parse_target_pid("pid:4321"), Some(4321));
    assert_eq!(parse_target_pid("pid:abc"), None);
    assert_eq!(parse_target_pid("4321"), None);
}

#[test]
fn dedupes_entries_by_pid() {
    let deduped = dedupe_window_entries_by_pid(vec![
        (100, "First title".to_string()),
        (100, "Second title".to_string()),
        (200, "Other".to_string()),
    ]);

    assert_eq!(deduped.get(&100).map(String::as_str), Some("First title"));
    assert_eq!(deduped.get(&200).map(String::as_str), Some("Other"));
}

#[test]
fn dedupe_keeps_one_entry_per_pid() {
    let deduped = dedupe_window_entries_by_pid(vec![
        (7, "a".to_string()),
        (8, "b".to_string()),
        (7, "c".to_string()),
        (8, "d".to_string()),
    ]);
    assert_eq!(deduped.len(), 2);
    assert_eq!(deduped.get(&7).map(String::as_str), Some("a"));
    assert_eq!(deduped.get(&8).map(String::as_str), Some("b"));
    assert!(dedupe_window_entries_by_pid(Vec::new()).is_empty());
}

#[test]
fn target_pid_follows_integer_parsing() {
    assert_eq!(parse_target_pid("pid:+17"), Some(17));
    assert_eq!(parse_target_pid("pid:4294967295"), Some(u32::MAX));
    assert_eq!(parse_target_pid("pid:4294967296"), None);
    assert_eq!(parse_target_pid("pid:"), None);
    assert_eq!(parse_target_pid("pid:-1"), None);
    assert_eq!(parse_target_pid("pid: 5"), None);
    assert_eq!(parse_target_pid("PID:5"), None);
}

#[test]
fn decimal_parsers_match_std() {
    for text in ["0", "+0", "007", "+", "-", "", "12a", "4294967295", "4294967296", "-5", "99999999999999999999"] {
        assert_eq!(parse_decimal_u32(text), text.parse::<u32>().ok(), "u32 {text:?}");
        assert_eq!(parse_decimal_isize(text), text.parse::<isize>().ok(), "isize {text:?}");
    }
    assert_eq!(parse_decimal_isize("-9223372036854775808"), Some(isize::MIN));
    assert_eq!(parse_decimal_isize("9223372036854775807"), Some(isize::MAX));
    assert_eq!(parse_decimal_isize("9223372036854775808"), None);
}

#[test]
fn window_source_edge_cases() {
    assert_eq!(parse_window_source_id("window:-42"), Some(-42));
    assert_eq!(parse_window_source_id("window:+8:extra:fields"), Some(8));
    assert_eq!(parse_window_source_id("window"), None);
    assert_eq!(parse_window_source_id("window:"), None);
    assert_eq!(parse_window_source_id("windows:1:0"), None);
    assert_eq!(parse_window_source_id(":1"), None);
}
