use debugproxy::logger::{log_file_name, rotation, session_header, should_flush, tail_lines, Rotation, TailScan};

#[test]
fn flush_threshold() {
    assert!(!should_flush(4095));
    assert!(should_flush(4096));
}

#[test]
fn file_names_and_headers() {
    assert_eq!(log_file_name("2026-07-15"), "proxy-2026-07-15.txt");
    assert_eq!(log_file_name("2026-07-15_15-30-00"), "proxy-2026-07-15_15-30-00.txt");
    assert_eq!(session_header("day", "T"), "--- Day started at T ---");
    assert_eq!(session_header("session", "T"), "--- Session started at T ---");
}

#[test]
fn rotation_decisions() {
    assert!(matches!(rotation("day", Some("2026-01-01"), "2026-01-01", true, true), Rotation::Keep));
    assert!(matches!(rotation("day", Some("2026-01-01"), "2026-01-02", true, true), Rotation::OpenDay));
    assert!(matches!(rotation("day", None, "2026-01-02", false, false), Rotation::OpenDay));
    assert!(matches!(rotation("day", Some("2026-01-02"), "2026-01-02", false, true), Rotation::OpenDay));
    assert!(matches!(rotation("session", None, "x", true, true), Rotation::Keep));
    assert!(matches!(rotation("session", None, "x", false, true), Rotation::ReopenSession));
    assert!(matches!(rotation("session", None, "x", false, false), Rotation::NewSession));
}

#[test]
fn tail_keeps_last_lines() {
    assert_eq!(tail_lines("a\nb\nc\n", 2), "b\nc\n");
    assert_eq!(tail_lines("a\nb\nc", 1), "b\nc");
    assert_eq!(tail_lines("a\nb\n", 5), "a\nb\n");
    assert_eq!(tail_lines("", 3), "");
    assert_eq!(tail_lines("x\ny\n", 0), "");
}

#[test]
fn backwards_reading_in_chunks() {
    let mut scan = TailScan::new(10000, 2);
    assert_eq!(scan.next_chunk(), Some((5904, 4096)));
    scan.record_chunk(5904, b"line\nline\n");
    assert_eq!(scan.newlines, 2);
    assert_eq!(scan.next_chunk(), Some((1808, 4096)));
    scan.record_chunk(1808, b"\n");
    assert_eq!(scan.next_chunk(), None);
    let mut small = TailScan::new(100, 50);
    assert_eq!(small.next_chunk(), Some((0, 100)));
    small.record_chunk(0, b"");
    assert_eq!(small.next_chunk(), None);
}
