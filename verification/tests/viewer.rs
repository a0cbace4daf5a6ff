use debugproxy::tui::{StyledLine, StyledSpan};
use debugproxy::viewer::{
    contains_chars, copy_plan, CopyPlan, Key, KeyEffect, MouseInput, Pane, ViewMode, ViewState, SCROLLBACK,
};

fn ch(c: char) -> Key {
    Key::Char { c, ctrl: false }
}

fn typed(s: &mut ViewState, text: &str) {
    for c in text.chars() {
        s.on_key(ch(c));
    }
}

fn raw(s: &str) -> StyledLine<()> {
    StyledLine { spans: vec![StyledSpan { content: s.to_string(), style: () }] }
}

#[test]
fn view_keys() {
    let mut s = ViewState::new();
    assert!(matches!(s.on_key(ch('q')), KeyEffect::Quit));
    assert!(matches!(s.on_key(Key::Char { c: 'c', ctrl: true }), KeyEffect::Quit));
    assert!(matches!(s.on_key(ch('y')), KeyEffect::Copy));
    s.on_key(Key::PageUp);
    assert!(!s.follow);
    assert_eq!(s.scroll, 0);
    s.on_key(Key::PageDown);
    s.on_key(Key::Down);
    assert_eq!(s.scroll, 11);
    s.on_key(Key::Up);
    assert_eq!(s.scroll, 10);
    assert!(matches!(s.on_key(ch('j')), KeyEffect::ToggleAlias { c: 'j' }));
    assert!(s.follow);
    assert!(matches!(s.on_key(ch('n')), KeyEffect::ToggleAlias { c: 'n' }));
}

#[test]
fn command_bar() {
    let mut s = ViewState::new();
    s.on_key(Key::Enter);
    assert!(s.mode == ViewMode::Command);
    typed(&mut s, " rm /x ");
    s.on_key(Key::Backspace);
    match s.on_key(Key::Enter) {
        KeyEffect::Execute { command } => assert_eq!(command.iter().collect::<String>(), "rm /x"),
        _ => panic!("expected a command"),
    }
    assert!(s.mode == ViewMode::View);
    assert!(s.input.is_empty());
    s.on_key(Key::Enter);
    typed(&mut s, "   ");
    assert!(matches!(s.on_key(Key::Enter), KeyEffect::Nothing));
    s.on_key(Key::Enter);
    typed(&mut s, "abc");
    s.on_key(Key::Esc);
    assert!(s.mode == ViewMode::View);
    assert!(s.input.is_empty());
}

#[test]
fn searching() {
    let plain = vec!["GET /a".to_string(), "error here".to_string(), "ok".to_string(), "ERROR again".to_string()];
    let mut s = ViewState::new();
    assert!(matches!(s.on_key(ch('/')), KeyEffect::RefreshSearch));
    assert!(s.mode == ViewMode::Search);
    for c in "err".chars() {
        assert!(matches!(s.on_key(ch(c)), KeyEffect::RefreshSearch));
        s.refresh_search(&plain, &vec![], 10);
    }
    assert_eq!(s.matches, vec![1, 3]);
    assert_eq!(s.cursor, 1);
    s.on_key(Key::Enter);
    assert!(s.mode == ViewMode::View);
    assert_eq!(s.search_term.as_ref().map(|t| t.iter().collect::<String>()), Some("err".to_string()));
    assert!(matches!(s.on_key(ch('n')), KeyEffect::NavigateSearch { forward: true }));
    s.navigate_search(true, &vec![0, 1, 2, 3], 10);
    assert_eq!(s.cursor, 0);
    s.navigate_search(false, &vec![2, 3], 10);
    assert_eq!(s.cursor, 1);
    assert!(!s.follow || s.scroll == 0);
    s.on_key(Key::Esc);
    assert!(s.search_term.is_none());
    assert!(s.matches.is_empty());
}

#[test]
fn search_jumps_to_nearest_match_when_not_following() {
    let plain: Vec<String> = (0..100).map(|i| if i % 10 == 0 { "hit".to_string() } else { "miss".to_string() }).collect();
    let mut s = ViewState::new();
    s.follow = false;
    s.scroll = 30;
    s.set_search("hit".chars().collect());
    s.refresh_search(&plain, &vec![30, 31, 32], 12);
    // pane of 12 rows: 10 content rows, centre 30 + 5 = 35; 30 and 40 are
    // equally close and the first wins
    assert_eq!(s.cursor, 3);
    assert_eq!(s.scroll, 30);
    s.refresh_search(&plain, &vec![0, 1], 12);
    assert_eq!(s.scroll, 25);
    assert!(!s.follow);
}

#[test]
fn scrollback_trim_renumbers() {
    let mut s = ViewState::new();
    s.scroll = 5;
    s.selection = Some((3, 8));
    s.anchor = Some(2);
    s.matches = vec![1, 4, 9];
    s.cursor = 2;
    let dropped = s.trim_scrollback(SCROLLBACK + 4);
    assert_eq!(dropped, 4);
    assert_eq!(s.scroll, 1);
    assert_eq!(s.selection, Some((0, 4)));
    assert_eq!(s.anchor, None);
    assert_eq!(s.matches, vec![0, 5]);
    assert_eq!(s.cursor, 1);
    assert_eq!(s.trim_scrollback(SCROLLBACK), 0);
}

#[test]
fn mouse_selection() {
    let log = Pane { x: 30, y: 3, width: 50, height: 10 };
    let search = Pane { x: 0, y: 0, width: 0, height: 0 };
    let visible = vec![10, 11, 11, 12];
    let mut s = ViewState::new();
    assert!(!s.on_mouse(MouseInput::Down { column: 40, row: 5 }, log, search, &visible));
    assert_eq!(s.selection, Some((11, 11)));
    assert_eq!(s.anchor, Some(11));
    s.on_mouse(MouseInput::Drag { row: 4 }, log, search, &visible);
    assert_eq!(s.selection, Some((10, 11)));
    s.on_mouse(MouseInput::Drag { row: 30 }, log, search, &visible);
    assert_eq!(s.selection, Some((11, 12)));
    assert!(s.on_mouse(MouseInput::Up, log, search, &visible));
    assert_eq!(s.anchor, None);
    s.on_mouse(MouseInput::Down { column: 5, row: 5 }, log, search, &visible);
    assert_eq!(s.selection, None);
    s.on_mouse(MouseInput::ScrollUp, log, search, &visible);
    assert!(!s.follow);
}

#[test]
fn copying_selected_lines() {
    let plain = vec!["one".to_string(), "two".to_string(), "  ".to_string()];
    match copy_plan(Some((0, 1)), &plain) {
        CopyPlan::Copy { text, label } => {
            assert_eq!(text, "one\ntwo");
            assert_eq!(label, "✓ 2 linhas copiadas para a área de transferência");
        }
        _ => panic!("expected a copy"),
    }
    match copy_plan(Some((1, 99)), &plain) {
        CopyPlan::Copy { text, label } => {
            assert_eq!(text, "two\n  ");
            assert_eq!(label, "✓ 2 linhas copiadas para a área de transferência");
        }
        _ => panic!("expected a copy"),
    }
    match copy_plan(Some((0, 0)), &plain) {
        CopyPlan::Copy { label, .. } => assert_eq!(label, "✓ linha copiada para a área de transferência"),
        _ => panic!("expected a copy"),
    }
    assert!(matches!(copy_plan(Some((2, 2)), &plain), CopyPlan::Notice { message } if message == "Nada para copiar (linha vazia)"));
    assert!(matches!(copy_plan(None, &plain), CopyPlan::Notice { message } if message == "Nenhuma linha selecionada"));
    assert!(matches!(copy_plan(Some((5, 6)), &plain), CopyPlan::Nothing));
    assert!(matches!(copy_plan(Some((0, 0)), &vec![]), CopyPlan::Nothing));
}

#[test]
fn log_pane_rows() {
    let lines = vec![raw("a"), raw("b"), raw("c"), raw("d")];
    let mut s = ViewState::new();
    let rows = s.log_rows(&lines, 2, 10);
    let idx: Vec<usize> = rows.iter().map(|(i, _)| *i).collect();
    assert_eq!(idx, vec![2, 3]);
    assert_eq!(s.scroll, 2);
    s.follow = false;
    s.scroll = 0;
    let rows = s.log_rows(&lines, 2, 10);
    assert_eq!(rows.iter().map(|(i, _)| *i).collect::<Vec<_>>(), vec![0, 1]);
    assert!(!s.follow);
    s.scroll = 3;
    s.log_rows(&lines, 2, 10);
    assert!(s.follow);
    s.set_search(vec!['x']);
    s.matches = vec![1, 3];
    s.follow = false;
    s.scroll = 2;
    let rows = s.log_rows(&lines, 5, 10);
    assert_eq!(rows.iter().map(|(i, _)| *i).collect::<Vec<_>>(), vec![3]);
}

#[test]
fn substring_search() {
    let hay: Vec<char> = "hello world".chars().collect();
    assert!(contains_chars(&hay, &"o w".chars().collect()));
    assert!(contains_chars(&hay, &vec![]));
    assert!(!contains_chars(&hay, &"worlds".chars().collect()));
}

#[test]
fn backspace_takes_back_a_typed_character() {
    let mut s = ViewState::new();
    s.on_key(Key::Enter);
    typed(&mut s, "ab");
    s.on_key(ch('c'));
    s.on_key(Key::Backspace);
    assert_eq!(s.input, vec!['a', 'b']);
    s.on_key(Key::Backspace);
    s.on_key(Key::Backspace);
    s.on_key(Key::Backspace);
    assert!(s.input.is_empty());
    assert!(s.mode == ViewMode::Command);
}
