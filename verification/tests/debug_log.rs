use opensessions_server::debug_log::{debug_tag, log_path, log_with_tag, starts_over, MAX_LOG_BYTES};

/// Writes a line to a log that is kept in memory.
fn append(log: &mut String, tag: &str, line: &str) {
    if starts_over(log.len() as u64) {
        log.clear();
    }
    log.push_str(&log_with_tag(1_785_000_000_000, tag, line));
}

#[test]
fn oversized_log_truncates_before_append() {
    let mut contents = "x".repeat((MAX_LOG_BYTES + 1) as usize);
    append(&mut contents, "test", "after-cap");
    assert!(
        contents.ends_with("[test] after-cap\n") && contents.len() < 128,
        "log should hold only the fresh line, got {} bytes",
        contents.len(),
    );
}

#[test]
fn a_log_at_the_bound_is_appended_to() {
    assert_eq!(MAX_LOG_BYTES, 64 * 1024 * 1024);
    assert!(!starts_over(MAX_LOG_BYTES));
    assert!(starts_over(MAX_LOG_BYTES + 1));
    let mut contents = "earlier\n".to_string();
    append(&mut contents, "test", "later");
    assert_eq!(contents, "earlier\n[1785000000000] [test] later\n");
}

#[test]
fn the_log_has_a_default_place_and_can_be_turned_off() {
    assert_eq!(log_path(None), Some("/tmp/opensessions-debug.log".to_string()));
    assert_eq!(log_path(Some("/var/x".to_string())), Some("/var/x".to_string()));
    assert_eq!(log_path(Some(String::new())), None);
}

#[test]
fn lines_carry_the_time_and_the_tag() {
    assert_eq!(debug_tag(42), "server pid=42");
    assert_eq!(log_with_tag(0, "server pid=42", "msg"), "[0] [server pid=42] msg\n");
}
