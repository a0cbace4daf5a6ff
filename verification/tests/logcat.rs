use debugproxy::logcat::{
    format_logcat_line, logcat_args, logcat_enabled, logcat_status, parse_logcat_line, priority_color,
    LogcatConfig, LogcatState,
};

#[test]
fn config_defaults() {
    let c = LogcatConfig::default();
    assert_eq!(c.enabled, Some(false));
    assert_eq!(c.default_filter(), "*:W");
    assert_eq!(c.buffer_arg(), "main");
    let empty = LogcatConfig { enabled: None, level: None, buffer: None };
    assert_eq!(empty.default_filter(), "*:W");
    assert_eq!(empty.buffer_arg(), "main");
    let set = LogcatConfig { enabled: Some(true), level: Some("*:D".into()), buffer: Some("crash".into()) };
    assert_eq!(set.default_filter(), "*:D");
    assert_eq!(set.buffer_arg(), "crash");
}

#[test]
fn state_starts_stopped() {
    let s = LogcatState::new("*:E");
    assert!(!s.is_running());
    assert_eq!(s.line_count(), 0);
    assert_eq!(s.filter, "*:E");
}

#[test]
fn lines_are_parsed_by_priority() {
    assert_eq!(parse_logcat_line("  E/Tag( 12): boom  "), ("E".to_string(), "E/Tag( 12): boom".to_string()));
    assert_eq!(parse_logcat_line("X/Tag: odd"), ("V".to_string(), "X/Tag: odd".to_string()));
    assert_eq!(parse_logcat_line("   "), ("V".to_string(), String::new()));
    assert_eq!(priority_color("E"), "\x1b[31m");
    assert_eq!(priority_color("F"), "\x1b[31m");
    assert_eq!(priority_color("W"), "\x1b[33m");
    assert_eq!(priority_color("I"), "\x1b[32m");
    assert_eq!(priority_color("D"), "\x1b[36m");
    assert_eq!(priority_color("V"), "\x1b[2m");
}

#[test]
fn captured_line_format() {
    assert_eq!(
        format_logcat_line("10:00:00", "W/Net: slow"),
        "\x1b[2m[10:00:00]\x1b[0m \x1b[33mAndroid/W\x1b[0m W/Net: slow"
    );
}

#[test]
fn adb_arguments() {
    let cfg = Some(LogcatConfig { enabled: Some(true), level: Some("*:I".into()), buffer: None });
    assert_eq!(logcat_args(&cfg, ""), vec!["logcat", "-v", "brief", "-b", "main", "*:I"]);
    assert_eq!(logcat_args(&cfg, "App:D"), vec!["logcat", "-v", "brief", "-b", "main", "App:D"]);
    assert_eq!(logcat_args(&None, ""), vec!["logcat", "-v", "brief", "-b", "main", "*:W"]);
    assert!(logcat_enabled(&cfg));
    assert!(!logcat_enabled(&None));
    assert!(!logcat_enabled(&Some(LogcatConfig { enabled: None, level: None, buffer: None })));
}

#[test]
fn status_text() {
    let mut s = LogcatState::new("*:W");
    assert_eq!(logcat_status(&s), "\x1b[2mLogcat: stopped\x1b[0m (filter: *:W)");
    s.running = true;
    s.pid = Some(42);
    s.lines_captured = 7;
    s.started_at = Some("10:00:00".into());
    assert_eq!(
        logcat_status(&s),
        "\x1b[32mLogcat: RUNNING\x1b[0m (pid 42, filter: *:W, 7 lines, since [10:00:00])"
    );
}
