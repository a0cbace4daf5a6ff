use debugproxy::tui::{
    build_display_rows, build_filtered_rows, build_filtered_tail_rows, build_tail_rows, format_uptime,
    log_inner_rows, navigate_cursor, row_to_line_idx, sanitize_cells, wrap_line, StyledLine, StyledSpan,
};

fn raw(s: &str) -> StyledLine<()> {
    StyledLine { spans: vec![StyledSpan { content: s.to_string(), style: () }] }
}

fn plain_line<S>(l: &StyledLine<S>) -> String {
    l.spans.iter().map(|s| s.content.as_str()).collect()
}

fn plain(rows: &[StyledLine<()>]) -> Vec<String> {
    rows.iter().map(plain_line).collect()
}

#[test]
fn sanitize_cells_replaces_control_and_bidi_chars() {
    assert_eq!(sanitize_cells("a\rb\tc\u{8}d"), "a b c d");
    assert_eq!(sanitize_cells("x\u{202E}y\u{2066}z"), "x y z");
    assert_eq!(sanitize_cells("normal ✓ text"), "normal ✓ text");
}

#[test]
fn wrap_line_splits_at_width() {
    let rows = wrap_line(&raw("abcdef"), 4);
    assert_eq!(plain(&rows), vec!["abcd", "ef"]);
}

#[test]
fn wrap_line_accounts_for_wide_chars() {
    let rows = wrap_line(&raw("abc🚀d"), 4);
    assert_eq!(plain(&rows), vec!["abc", "🚀d"]);
}

#[test]
fn wrap_line_zero_width_never_starts_a_row() {
    let rows = wrap_line(&raw("ab\u{301}cd"), 2);
    assert_eq!(plain(&rows), vec!["ab\u{301}", "cd"]);
}

#[test]
fn build_tail_rows_keeps_wrapped_tail_visible() {
    let lines = vec![raw("first"), raw("0123456789")];
    let rows = build_tail_rows(&lines, 2, 4);
    assert_eq!(rows.len(), 2);
    assert!(rows.iter().all(|(idx, _)| *idx == 1));
    assert_eq!(plain_line(&rows[1].1), "89");
}

#[test]
fn wrap_keeps_every_character_and_style() {
    let line = StyledLine {
        spans: vec![
            StyledSpan { content: "héllo ".to_string(), style: 1u8 },
            StyledSpan { content: "wörld!".to_string(), style: 2u8 },
        ],
    };
    let rows = wrap_line(&line, 5);
    let joined: String = rows.iter().map(plain_line).collect();
    assert_eq!(joined, "héllo wörld!");
    assert!(rows.iter().all(|r| r.spans.iter().all(|s| s.content.chars().count() == 1)));
    assert_eq!(rows[0].spans[0].style, 1u8);
    assert_eq!(rows[2].spans[1].style, 2u8);
    assert!(rows.iter().all(|r| r.spans.len() <= 5));
}

#[test]
fn wrap_at_zero_width_keeps_the_line_whole() {
    let rows = wrap_line(&raw("abc"), 0);
    assert_eq!(plain(&rows), vec!["abc"]);
    assert!(rows[0].spans.iter().all(|s| s.content.chars().count() == 1));
}

#[test]
fn display_rows_start_at_scroll_position() {
    let lines = vec![raw("a"), raw("bb"), raw("cccccc")];
    let rows = build_display_rows(&lines, 1, 3, 4);
    let idx: Vec<usize> = rows.iter().map(|(i, _)| *i).collect();
    assert_eq!(idx, vec![1, 2, 2]);
    assert_eq!(plain_line(&rows[2].1), "cc");
}

#[test]
fn filtered_rows_follow_the_match_list() {
    let lines = vec![raw("zero"), raw("one"), raw("two"), raw("three")];
    let matches = vec![0, 2, 3];
    let rows = build_filtered_rows(&lines, &matches, 1, 10, 80);
    let idx: Vec<usize> = rows.iter().map(|(i, _)| *i).collect();
    assert_eq!(idx, vec![2, 3]);
    let tail = build_filtered_tail_rows(&lines, &matches, 2, 80);
    let idx2: Vec<usize> = tail.iter().map(|(i, _)| *i).collect();
    assert_eq!(idx2, vec![2, 3]);
}

#[test]
fn uptime_formats() {
    assert_eq!(format_uptime(0), "0m 00s");
    assert_eq!(format_uptime(65), "1m 05s");
    assert_eq!(format_uptime(3661), "1h 01m 01s");
}

#[test]
fn cursor_wraps_around() {
    assert_eq!(navigate_cursor(2, 3, true), 0);
    assert_eq!(navigate_cursor(0, 3, false), 2);
    assert_eq!(navigate_cursor(1, 3, false), 0);
    assert_eq!(navigate_cursor(0, 0, true), 0);
}

#[test]
fn mouse_rows_map_to_lines() {
    assert_eq!(log_inner_rows(5, 2), None);
    assert_eq!(log_inner_rows(5, 10), Some((6, 14)));
    let visible = vec![7, 7, 8];
    assert_eq!(row_to_line_idx(&visible, 5, 10, 6, false), Some(7));
    assert_eq!(row_to_line_idx(&visible, 5, 10, 8, false), Some(8));
    assert_eq!(row_to_line_idx(&visible, 5, 10, 12, false), None);
    assert_eq!(row_to_line_idx(&visible, 5, 10, 12, true), Some(8));
    assert_eq!(row_to_line_idx(&visible, 5, 10, 0, false), Some(7));
}
