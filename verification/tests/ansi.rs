use debugproxy::ansi::parse_log_line;
use ratatui::style::{Color, Style};

#[test]
fn escapes_become_styles_and_controls_spaces() {
    let lines = parse_log_line("\x1b[32mGET\x1b[0m /x\tend", Style::default());
    assert_eq!(lines.len(), 1);
    let text: String = lines[0].spans.iter().map(|s| s.content.as_str()).collect();
    assert_eq!(text, "GET /x end");
    assert_eq!(lines[0].spans[0].content, "GET");
    assert_eq!(lines[0].spans[0].style.fg, Some(Color::Green));
}

#[test]
fn empty_text_gives_one_empty_line() {
    let lines = parse_log_line("", Style::default());
    assert_eq!(lines.len(), 1);
    let text: String = lines[0].spans.iter().map(|s| s.content.as_str()).collect();
    assert_eq!(text, "");
}

#[test]
fn styles_follow_the_escapes() {
    let lines = parse_log_line("a\x1b[31mb\x1b[0mc", Style::default());
    let styled: Vec<(String, Option<Color>)> =
        lines[0].spans.iter().map(|s| (s.content.clone(), s.style.fg)).collect();
    assert!(styled.iter().any(|(t, fg)| t == "b" && *fg == Some(Color::Red)));
    assert!(styled.iter().any(|(t, fg)| t == "a" && *fg != Some(Color::Red)));
}
