use debugproxy::colors::{ansi_code, status_color, strip_ansi, ServiceColors, DIM, GREEN, RED, RESET, YELLOW};

#[test]
fn strip_ansi_passthrough_without_escapes() {
    assert_eq!(strip_ansi("plain text"), "plain text");
    assert_eq!(strip_ansi(""), "");
}

#[test]
fn strip_ansi_removes_full_sequences() {
    assert_eq!(strip_ansi("\x1b[32mGET\x1b[0m /path"), "GET /path");
    assert_eq!(strip_ansi("\x1b[1;31mERR\x1b[0m \x1b[2mdim\x1b[0m"), "ERR dim");
}

#[test]
fn strip_ansi_preserves_lone_esc_and_trailing_esc() {
    assert_eq!(strip_ansi("a\x1bb"), "a\x1bb");
    assert_eq!(strip_ansi("end\x1b"), "end\x1b");
}

#[test]
fn strip_ansi_handles_unterminated_sequence() {
    assert_eq!(strip_ansi("x\x1b[31"), "x");
}

#[test]
fn strip_ansi_preserves_multibyte_utf8() {
    assert_eq!(strip_ansi("\x1b[32mcafé\x1b[0m 🚀"), "café 🚀");
}

#[test]
fn strip_ansi_pure_multibyte_no_escapes() {
    assert_eq!(strip_ansi("こんにちは"), "こんにちは");
}

#[test]
fn strip_ansi_consecutive_sequences_collapse() {
    assert_eq!(strip_ansi("\x1b[31m\x1b[0m"), "");
    assert_eq!(strip_ansi("a\x1b[1m\x1b[31mb\x1b[0mc"), "abc");
}

#[test]
fn strip_ansi_lone_esc_at_start() {
    assert_eq!(strip_ansi("\x1bhello"), "\x1bhello");
}

#[test]
fn strip_ansi_is_idempotent_on_examples() {
    let once = strip_ansi("\x1b[1;31mERR\x1b[0m x\x1b");
    assert_eq!(strip_ansi(&once), once);
}

#[test]
fn ansi_code_knows_the_palette() {
    assert_eq!(ansi_code("green"), Some("\x1b[32m"));
    assert_eq!(ansi_code("magenta"), Some("\x1b[35m"));
    assert_eq!(ansi_code("blue"), Some("\x1b[34m"));
    assert_eq!(ansi_code("white"), Some("\x1b[37m"));
    assert_eq!(ansi_code("dim"), Some("\x1b[2m"));
    assert_eq!(ansi_code("purple"), None);
    assert_eq!(ansi_code("Green"), None);
}

#[test]
fn status_color_by_class() {
    assert_eq!(status_color(503), RED);
    assert_eq!(status_color(500), RED);
    assert_eq!(status_color(404), YELLOW);
    assert_eq!(status_color(200), GREEN);
    assert_eq!(status_color(302), GREEN);
    assert_eq!(status_color(101), YELLOW);
}

#[test]
fn service_colors_use_configured_names() {
    let cfg = vec![
        ("Agriculture".to_string(), "green".to_string()),
        ("Weather".to_string(), "nonsense".to_string()),
    ];
    let c = ServiceColors::new(&cfg);
    assert_eq!(c.get("Agriculture"), "\x1b[32m");
    assert_eq!(c.get("Weather"), DIM);
    assert_eq!(c.get("Unknown"), RESET);
}
