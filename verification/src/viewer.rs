//! The log viewer's state: scrolling, the command and search inputs, the
//! search matches and the mouse selection, and how keys change them.
use vstd::prelude::*;

use crate::commands::{to_lowercase, unicode_lower};
use crate::text::{chars_of, texts, trim_chars, trimmed};
use crate::text::{decimal, u64_to_decimal};
use crate::tui::{
    build_display_rows, build_filtered_rows, build_filtered_tail_rows, build_tail_rows, first_items,
    index_range, items_from, last_items, line_at_row, navigate_cursor, next_cursor, row_to_line_idx,
    rows_one_char, rows_view, tagged_rows, StyledLine,
};

verus! {

/// What the keyboard drives.
#[derive(Clone, Copy, PartialEq, Eq, Structural)]
pub enum ViewMode {
    /// Reading the logs.
    View,
    /// Typing a command.
    Command,
    /// Typing a search.
    Search,
}

/// A key press.
#[derive(Clone, Copy)]
pub enum Key {
    /// A character, with whether Control was held.
    Char { c: char, ctrl: bool },
    Enter,
    Esc,
    Backspace,
    PageUp,
    PageDown,
    Up,
    Down,
    /// Any other key.
    Other,
}

/// What the caller must do after a key.
pub enum KeyEffect {
    Nothing,
    /// Leave the viewer.
    Quit,
    /// Copy the selected lines.
    Copy,
    /// Recompute the search matches.
    RefreshSearch,
    /// Move to the next (or previous) match.
    NavigateSearch { forward: bool },
    /// Toggle the filter whose alias is this character.
    ToggleAlias { c: char },
    /// Run a command line.
    Execute { command: Vec<char> },
}

/// A key effect, with the command as characters.
pub enum EffectView {
    Nothing,
    Quit,
    Copy,
    RefreshSearch,
    NavigateSearch { forward: bool },
    ToggleAlias { c: char },
    Execute { command: Seq<char> },
}

/// The effect as a value of `EffectView`.
pub open spec fn effect_view(e: KeyEffect) -> EffectView {
    match e {
        KeyEffect::Nothing => EffectView::Nothing,
        KeyEffect::Quit => EffectView::Quit,
        KeyEffect::Copy => EffectView::Copy,
        KeyEffect::RefreshSearch => EffectView::RefreshSearch,
        KeyEffect::NavigateSearch { forward } => EffectView::NavigateSearch { forward },
        KeyEffect::ToggleAlias { c } => EffectView::ToggleAlias { c },
        KeyEffect::Execute { command } => EffectView::Execute { command: command@ },
    }
}

/// The viewer state as mathematical values.
pub struct ViewModel {
    pub mode: ViewMode,
    pub scroll: int,
    pub follow: bool,
    pub input: Seq<char>,
    pub term: Option<Seq<char>>,
    pub matches: Seq<usize>,
    pub cursor: int,
    pub selection: Option<(usize, usize)>,
    pub anchor: Option<usize>,
}

/// The state of the log viewer.
pub struct ViewState {
    pub mode: ViewMode,
    /// Index of the first line shown when not following.
    pub scroll: usize,
    /// Whether the view sticks to the newest lines.
    pub follow: bool,
    /// What is being typed in the command or search bar.
    pub input: Vec<char>,
    /// The active search, if any.
    pub search_term: Option<Vec<char>>,
    /// Indices of the lines that match the search, ascending.
    pub matches: Vec<usize>,
    /// Position of the current match in `matches`.
    pub cursor: usize,
    /// Selected lines, first and last inclusive.
    pub selection: Option<(usize, usize)>,
    /// Line where a mouse drag started.
    pub anchor: Option<usize>,
}

/// Optional characters as a sequence.
pub open spec fn opt_chars(o: Option<Vec<char>>) -> Option<Seq<char>> {
    match o {
        Some(v) => Some(v@),
        None => None,
    }
}

/// A search term that is set and not empty.
pub open spec fn has_term(t: Option<Seq<char>>) -> bool {
    t matches Some(x) && x.len() > 0
}

/// The search term, or nothing.
pub open spec fn term_or_empty(t: Option<Seq<char>>) -> Seq<char> {
    match t {
        Some(x) => x,
        None => seq![],
    }
}

/// `a - b`, or 0 when `b` is larger.
pub open spec fn minus_or_zero(a: int, b: int) -> int {
    if a >= b {
        a - b
    } else {
        0
    }
}

/// `s` without its last character (unchanged when empty).
pub open spec fn popped(s: Seq<char>) -> Seq<char> {
    if s.len() > 0 {
        s.drop_last()
    } else {
        s
    }
}

/// The model with the search cleared.
pub open spec fn search_cleared(m: ViewModel) -> ViewModel {
    ViewModel { term: None, matches: seq![], cursor: 0, ..m }
}

/// What a key does in the log view.
pub open spec fn view_key(m: ViewModel, k: Key) -> (ViewModel, EffectView) {
    match k {
        Key::Char { c, ctrl } => {
            if (c == 'c' && ctrl) || c == 'q' {
                (m, EffectView::Quit)
            } else if c == 'y' {
                (m, EffectView::Copy)
            } else if c == '/' {
                (
                    ViewModel { mode: ViewMode::Search, input: term_or_empty(m.term), ..m },
                    EffectView::RefreshSearch,
                )
            } else if c == 'n' && has_term(m.term) {
                (m, EffectView::NavigateSearch { forward: true })
            } else if c == 'N' && has_term(m.term) {
                (m, EffectView::NavigateSearch { forward: false })
            } else {
                (
                    ViewModel { follow: if c == 'j' { true } else { m.follow }, ..m },
                    EffectView::ToggleAlias { c },
                )
            }
        },
        Key::Enter => (ViewModel { mode: ViewMode::Command, input: seq![], ..m }, EffectView::Nothing),
        Key::PageUp => (
            ViewModel { follow: false, scroll: minus_or_zero(m.scroll, 10), ..m },
            EffectView::Nothing,
        ),
        Key::PageDown => (ViewModel { scroll: m.scroll + 10, ..m }, EffectView::Nothing),
        Key::Up => (
            ViewModel { follow: false, scroll: minus_or_zero(m.scroll, 1), ..m },
            EffectView::Nothing,
        ),
        Key::Down => (ViewModel { scroll: m.scroll + 1, ..m }, EffectView::Nothing),
        Key::Esc => if has_term(m.term) {
            (search_cleared(m), EffectView::Nothing)
        } else {
            (m, EffectView::Nothing)
        },
        _ => (m, EffectView::Nothing),
    }
}

/// What a key does while a command is typed.
pub open spec fn command_key(m: ViewModel, k: Key) -> (ViewModel, EffectView) {
    match k {
        Key::Esc => (ViewModel { mode: ViewMode::View, input: seq![], ..m }, EffectView::Nothing),
        Key::Enter => {
            let cmd = trimmed(m.input);
            (
                ViewModel { mode: ViewMode::View, input: seq![], ..m },
                if cmd.len() > 0 {
                    EffectView::Execute { command: cmd }
                } else {
                    EffectView::Nothing
                },
            )
        },
        Key::Backspace => (ViewModel { input: popped(m.input), ..m }, EffectView::Nothing),
        Key::Char { c, ctrl } => (ViewModel { input: m.input.push(c), ..m }, EffectView::Nothing),
        _ => (m, EffectView::Nothing),
    }
}

/// What a key does while a search is typed.
pub open spec fn search_key(m: ViewModel, k: Key) -> (ViewModel, EffectView) {
    match k {
        Key::Char { c, ctrl } => if c == 'y' {
            (m, EffectView::Copy)
        } else {
            let i = m.input.push(c);
            (ViewModel { input: i, term: Some(i), ..m }, EffectView::RefreshSearch)
        },
        Key::Esc => (
            ViewModel { mode: ViewMode::View, input: seq![], ..search_cleared(m) },
            EffectView::Nothing,
        ),
        Key::Enter => {
            let t = trimmed(m.input);
            if t.len() == 0 {
                (ViewModel { mode: ViewMode::View, ..search_cleared(m) }, EffectView::Nothing)
            } else {
                (
                    ViewModel { mode: ViewMode::View, term: Some(t), input: t, ..m },
                    EffectView::Nothing,
                )
            }
        },
        Key::Backspace => {
            let i = popped(m.input);
            if i.len() == 0 {
                (ViewModel { input: i, matches: seq![], cursor: 0, ..m }, EffectView::Nothing)
            } else {
                (ViewModel { input: i, term: Some(i), ..m }, EffectView::RefreshSearch)
            }
        },
        _ => (m, EffectView::Nothing),
    }
}

/// What a key does: the new state and what the caller must do.
pub open spec fn key_step(m: ViewModel, k: Key) -> (ViewModel, EffectView) {
    match m.mode {
        ViewMode::View => view_key(m, k),
        ViewMode::Command => command_key(m, k),
        ViewMode::Search => search_key(m, k),
    }
}

/// How far a key scrolls down in the log view: ten lines for PageDown, one
/// for Down, none for any other key or in another mode.
pub open spec fn scroll_down_by(mode: ViewMode, k: Key) -> nat {
    if mode == ViewMode::View {
        match k {
            Key::PageDown => 10,
            Key::Down => 1,
            _ => 0,
        }
    } else {
        0
    }
}

/// Copies of characters.
fn copy_chars(v: &Vec<char>) -> (r: Vec<char>)
    ensures
        r@ == v@,
{
    let mut r: Vec<char> = Vec::new();
    let mut i: usize = 0;
    while i < v.len()
        invariant
            i <= v@.len(),
            r@ == v@.subrange(0, i as int),
        decreases v@.len() - i,
    {
        r.push(v[i]);
        i = i + 1;
        assert(r@ =~= v@.subrange(0, i as int));
    }
    assert(v@.subrange(0, v@.len() as int) =~= v@);
    r
}


/// `needle` occurs in `hay` at position `i`.
pub open spec fn occurs_at(hay: Seq<char>, needle: Seq<char>, i: int) -> bool {
    0 <= i && i + needle.len() <= hay.len() && hay.subrange(i, i + needle.len()) == needle
}

/// `needle` occurs somewhere in `hay` (`str::contains`).
pub open spec fn contains_text(hay: Seq<char>, needle: Seq<char>) -> bool {
    exists|i: int| occurs_at(hay, needle, i)
}

/// Whether `needle` occurs in `hay`.
pub fn contains_chars(hay: &Vec<char>, needle: &Vec<char>) -> (r: bool)
    ensures
        r == contains_text(hay@, needle@),
{
    let n = needle.len();
    if n == 0 {
        assert(hay@.subrange(0, 0) =~= needle@);
        assert(occurs_at(hay@, needle@, 0));
        return true;
    }
    if n > hay.len() {
        return false;
    }
    let last = hay.len() - n;
    let mut i: usize = 0;
    while i <= last
        invariant
            n == needle@.len(),
            n >= 1,
            hay@.len() <= usize::MAX,
            last + n == hay@.len(),
            i <= last + 1,
            forall|j: int| 0 <= j < i ==> !occurs_at(hay@, needle@, j),
        decreases last + 1 - i,
    {
        let mut k: usize = 0;
        while k < n && hay[i + k] == needle[k]
            invariant
                n == needle@.len(),
                hay@.len() <= usize::MAX,
                last + n == hay@.len(),
                i <= last,
                k <= n,
                forall|t: int| 0 <= t < k ==> hay@[i + t] == needle@[t],
            decreases n - k,
        {
            k = k + 1;
        }
        if k == n {
            assert(hay@.subrange(i as int, i + n) =~= needle@);
            assert(occurs_at(hay@, needle@, i as int));
            return true;
        }
        assert(!occurs_at(hay@, needle@, i as int)) by {
            assert(hay@.subrange(i as int, i + n)[k as int] == hay@[i + k]);
        }
        i = i + 1;
    }
    false
}

/// A line matches a search when its lowercase holds the lowercase term.
pub open spec fn line_matches(line: Seq<char>, term: Seq<char>) -> bool {
    contains_text(unicode_lower(line), unicode_lower(term))
}

/// Indices, below `n`, of the lines that match `term`, ascending.
pub open spec fn matching_lines(lines: Seq<Seq<char>>, term: Seq<char>, n: int) -> Seq<usize>
    decreases n,
{
    if n <= 0 {
        seq![]
    } else {
        let r = matching_lines(lines, term, n - 1);
        if line_matches(lines[n - 1], term) {
            r.push((n - 1) as usize)
        } else {
            r
        }
    }
}

/// Distance between two line indices.
pub open spec fn dist(a: int, b: int) -> int {
    if a > b {
        a - b
    } else {
        b - a
    }
}

/// Position, among the first `n` matches, of the first one closest to
/// `center`.
pub open spec fn nearest_upto(ms: Seq<usize>, center: int, n: int) -> int
    decreases n,
{
    if n <= 1 {
        0
    } else {
        let b = nearest_upto(ms, center, n - 1);
        if dist(ms[n - 1] as int, center) < dist(ms[b] as int, center) {
            n - 1
        } else {
            b
        }
    }
}

/// Half the content rows of a bordered pane of `height` rows.
pub open spec fn half_pane(height: u16) -> int {
    minus_or_zero(height as int, 2) / 2
}

/// The model scrolled so that the current match is on screen: unchanged
/// when it already is (between the first and last visible line) or when
/// the cursor is on no match; else the match is put half a pane below the
/// top and following stops.
pub open spec fn scrolled_to_match(m: ViewModel, visible: Seq<usize>, height: u16) -> ViewModel {
    if 0 <= m.cursor < m.matches.len() {
        let idx = m.matches[m.cursor] as int;
        let first = if visible.len() > 0 { visible[0] as int } else { 0 };
        let last = if visible.len() > 0 { visible.last() as int } else { 0 };
        if first <= idx && idx <= last {
            m
        } else {
            ViewModel { scroll: minus_or_zero(idx, half_pane(height)), follow: false, ..m }
        }
    } else {
        m
    }
}

/// The model after the search matches are recomputed over `lines`: with
/// no term, nothing matches; when following, the cursor goes to the last
/// match; else to the match closest to the middle of the pane, scrolled to.
pub open spec fn refreshed(m: ViewModel, lines: Seq<Seq<char>>, visible: Seq<usize>, height: u16) -> ViewModel {
    let term = term_or_empty(m.term);
    if term.len() == 0 {
        ViewModel { matches: seq![], cursor: 0, ..m }
    } else {
        let ms = matching_lines(lines, term, lines.len() as int);
        if ms.len() == 0 {
            ViewModel { matches: ms, cursor: 0, ..m }
        } else if !m.follow {
            let center = m.scroll + half_pane(height);
            scrolled_to_match(
                ViewModel { matches: ms, cursor: nearest_upto(ms, center, ms.len() as int), ..m },
                visible,
                height,
            )
        } else {
            ViewModel { matches: ms, cursor: ms.len() - 1, ..m }
        }
    }
}

/// The model after moving to the next or previous match.
pub open spec fn navigated(m: ViewModel, forward: bool, visible: Seq<usize>, height: u16) -> ViewModel {
    if m.matches.len() == 0 {
        m
    } else {
        scrolled_to_match(
            ViewModel { cursor: next_cursor(m.cursor as nat, m.matches.len(), forward) as int, ..m },
            visible,
            height,
        )
    }
}

/// Indices in `s` are ascending and below `n`.
pub open spec fn ascending_below(s: Seq<usize>, n: int) -> bool {
    &&& forall|a: int, b: int| 0 <= a < b < s.len() ==> s[a] < s[b]
    &&& forall|a: int| 0 <= a < s.len() ==> s[a] < n
}

proof fn lemma_matching_ascending(lines: Seq<Seq<char>>, term: Seq<char>, n: int)
    requires
        0 <= n <= usize::MAX,
    ensures
        ascending_below(matching_lines(lines, term, n), n),
    decreases n,
{
    if n > 0 {
        lemma_matching_ascending(lines, term, n - 1);
        let r = matching_lines(lines, term, n - 1);
        if line_matches(lines[n - 1], term) {
            let s = r.push((n - 1) as usize);
            assert forall|a: int, b: int| 0 <= a < b < s.len() implies s[a] < s[b] by {
                assert(s[a] == r[a]);
            }
            assert forall|a: int| 0 <= a < s.len() implies s[a] < n by {
                if a < r.len() {
                    assert(s[a] == r[a]);
                }
            }
        }
    }
}

proof fn lemma_nearest_in_range(ms: Seq<usize>, center: int, n: int)
    requires
        1 <= n <= ms.len(),
    ensures
        0 <= nearest_upto(ms, center, n) < n,
    decreases n,
{
    if n > 1 {
        lemma_nearest_in_range(ms, center, n - 1);
    }
}

fn half_rows(height: u16) -> (r: usize)
    ensures
        r == half_pane(height),
{
    let inner: u16 = if height >= 2 { height - 2 } else { 0 };
    (inner / 2) as usize
}

fn distance(a: usize, b: usize) -> (r: usize)
    ensures
        r == dist(a as int, b as int),
{
    if a > b {
        a - b
    } else {
        b - a
    }
}

/// Lines kept in the viewer; older ones are dropped.
pub const SCROLLBACK: usize = 10000;

/// The matches that survive dropping the first `k` lines, renumbered.
pub open spec fn shifted_matches(ms: Seq<usize>, k: int) -> Seq<usize>
    decreases ms.len(),
{
    if ms.len() == 0 {
        seq![]
    } else {
        let r = shifted_matches(ms.drop_last(), k);
        if ms.last() >= k {
            r.push((ms.last() - k) as usize)
        } else {
            r
        }
    }
}

/// Position of the first `x` in `s` at or after `i`.
pub open spec fn find_value_from(s: Seq<usize>, x: usize, i: int) -> Option<int>
    decreases s.len() - i,
{
    if i < 0 || i >= s.len() {
        None
    } else if s[i] == x {
        Some(i)
    } else {
        find_value_from(s, x, i + 1)
    }
}

/// Position of the first entry at least `x` in `s` at or after `i`.
pub open spec fn find_at_least_from(s: Seq<usize>, x: int, i: int) -> Option<int>
    decreases s.len() - i,
{
    if i < 0 || i >= s.len() {
        None
    } else if s[i] >= x {
        Some(i)
    } else {
        find_at_least_from(s, x, i + 1)
    }
}

/// The model after the first `overflow` lines are dropped: positions move
/// up by `overflow`; a selection or drag anchor wholly in the dropped part
/// goes; matches in it go, and the cursor follows its match to its new
/// place (the first match at that place, or the first match at all).
pub open spec fn trimmed_model(m: ViewModel, overflow: int) -> ViewModel {
    let selection = match m.selection {
        Some((s, e)) => if e < overflow {
            None
        } else {
            Some((minus_or_zero(s as int, overflow) as usize, (e - overflow) as usize))
        },
        None => None,
    };
    let anchor = match m.anchor {
        Some(a) => if a < overflow {
            None
        } else {
            Some((a - overflow) as usize)
        },
        None => None,
    };
    let base = ViewModel { scroll: minus_or_zero(m.scroll, overflow), selection, anchor, ..m };
    if m.matches.len() == 0 {
        base
    } else {
        let ms = shifted_matches(m.matches, overflow);
        let cursor = if 0 <= m.cursor < m.matches.len() {
            match find_value_from(ms, minus_or_zero(m.matches[m.cursor] as int, overflow) as usize, 0) {
                Some(p) => p,
                None => 0,
            }
        } else {
            0
        };
        ViewModel { matches: ms, cursor, ..base }
    }
}

/// Escape closes the command bar: back to the log view with the typed
/// text discarded, and nothing to do.
pub proof fn law_escape_closes_command_bar(m: ViewModel)
    requires
        m.mode == ViewMode::Command,
    ensures
        key_step(m, Key::Esc) == (ViewModel { mode: ViewMode::View, input: seq![], ..m }, EffectView::Nothing),
{
}

/// `j` in the log view always jumps to the newest lines: following turns
/// on, whatever else the key does.
pub proof fn law_j_follows(m: ViewModel)
    requires
        m.mode == ViewMode::View,
    ensures
        key_step(m, Key::Char { c: 'j', ctrl: false }).0.follow,
{
}

/// Page keys move the log view by ten lines (never above the top).
pub proof fn law_page_keys_move_ten_lines(m: ViewModel)
    requires
        m.mode == ViewMode::View,
        m.scroll >= 10,
    ensures
        key_step(m, Key::PageUp).0.scroll == m.scroll - 10,
        key_step(m, Key::PageDown).0.scroll == m.scroll + 10,
        key_step(key_step(m, Key::PageDown).0, Key::PageUp).0.scroll == m.scroll,
{
}

/// A typed character taken back by Backspace leaves the command as it was.
pub proof fn law_backspace_undoes_typing(m: ViewModel, c: char, ctrl: bool)
    requires
        m.mode == ViewMode::Command,
    ensures
        key_step(key_step(m, Key::Char { c, ctrl }).0, Key::Backspace).0 == m,
{
    assert(m.input.push(c).drop_last() =~= m.input);
}

/// Dragging keeps the point where the drag started: the selection runs
/// from the smaller to the larger of the anchor and the line under the
/// pointer, both included, and the anchor stays.
pub proof fn law_drag_keeps_anchor(m: ViewModel, row: u16, log_area: Pane, search_area: Pane, visible: Seq<usize>)
    requires
        m.anchor is Some,
        line_at_row(visible, log_area.y, log_area.height, row, true) is Some,
    ensures
        ({
            let (after, copy) = mouse_step(m, MouseInput::Drag { row }, log_area, search_area, visible);
            let a = m.anchor->0;
            let i = line_at_row(visible, log_area.y, log_area.height, row, true)->0;
            &&& !copy
            &&& after.anchor == m.anchor
            &&& after.selection matches Some((s, e)) && s <= e && s <= a <= e && s <= i <= e
        }),
{
}

/// A screen rectangle.
#[derive(Clone, Copy)]
pub struct Pane {
    pub x: u16,
    pub y: u16,
    pub width: u16,
    pub height: u16,
}

/// A pane lies within the screen's coordinates.
pub open spec fn pane_ok(p: Pane) -> bool {
    p.x + p.width <= u16::MAX && p.y + p.height <= u16::MAX
}

/// A mouse event.
#[derive(Clone, Copy)]
pub enum MouseInput {
    ScrollUp,
    ScrollDown,
    /// A button went down at a cell.
    Down { column: u16, row: u16 },
    /// The pointer moved with a button down.
    Drag { row: u16 },
    /// A button went up.
    Up,
    Other,
}

/// Whether a click lands inside the search results pane's content (only
/// while a search is shown in the log view).
pub open spec fn clicks_search(m: ViewModel, search_area: Pane, column: u16, row: u16) -> bool {
    &&& has_term(m.term)
    &&& m.mode == ViewMode::View
    &&& search_area.x <= column < search_area.x + search_area.width
    &&& search_area.height > 2
    &&& search_area.y < row < search_area.y + search_area.height - 1
}

/// Whether a click lands inside the log pane's content rows.
pub open spec fn clicks_log(log_area: Pane, column: u16, row: u16) -> bool {
    &&& log_area.x <= column < log_area.x + log_area.width
    &&& log_area.height > 2
    &&& log_area.y + 1 <= row < log_area.y + log_area.height - 1
}

/// What a mouse event does: the new model, and whether the selection must
/// be copied.
pub open spec fn mouse_step(m: ViewModel, ev: MouseInput, log_area: Pane, search_area: Pane, visible: Seq<usize>) -> (ViewModel, bool) {
    match ev {
        MouseInput::ScrollUp => (ViewModel { follow: false, scroll: minus_or_zero(m.scroll, 3), ..m }, false),
        MouseInput::ScrollDown => (ViewModel { scroll: m.scroll + 3, ..m }, false),
        MouseInput::Down { column, row } => if clicks_search(m, search_area, column, row) {
            (ViewModel { mode: ViewMode::Search, input: term_or_empty(m.term), ..m }, false)
        } else {
            match line_at_row(visible, log_area.y, log_area.height, row, false) {
                Some(i) => if clicks_log(log_area, column, row) {
                    (ViewModel { anchor: Some(i), selection: Some((i, i)), ..m }, false)
                } else {
                    (ViewModel { selection: None, ..m }, false)
                },
                None => (ViewModel { selection: None, ..m }, false),
            }
        },
        MouseInput::Drag { row } => match (m.anchor, line_at_row(visible, log_area.y, log_area.height, row, true)) {
            (Some(a), Some(i)) => (
                ViewModel { selection: Some(if a <= i { (a, i) } else { (i, a) }), ..m },
                false,
            ),
            _ => (m, false),
        },
        MouseInput::Up => if m.anchor is Some {
            (ViewModel { anchor: None, ..m }, true)
        } else {
            (m, false)
        },
        MouseInput::Other => (m, false),
    }
}

/// The plain texts joined with line breaks.
pub open spec fn joined_lines(ls: Seq<Seq<char>>) -> Seq<char>
    decreases ls.len(),
{
    if ls.len() == 0 {
        seq![]
    } else if ls.len() == 1 {
        ls[0]
    } else {
        joined_lines(ls.drop_last()) + seq!['\n'] + ls.last()
    }
}

/// What copying the selection comes to.
pub enum CopyPlan {
    /// Nothing happens.
    Nothing,
    /// Nothing is copied; this message is shown.
    Notice { message: String },
    /// `text` goes to the clipboard; `label` is shown.
    Copy { text: String, label: String },
}

/// A copy plan, with texts as characters.
pub enum CopyPlanView {
    Nothing,
    Notice { message: Seq<char> },
    Copy { text: Seq<char>, label: Seq<char> },
}

/// The plan as a value of `CopyPlanView`.
pub open spec fn copy_plan_view(p: CopyPlan) -> CopyPlanView {
    match p {
        CopyPlan::Nothing => CopyPlanView::Nothing,
        CopyPlan::Notice { message } => CopyPlanView::Notice { message: message@ },
        CopyPlan::Copy { text, label } => CopyPlanView::Copy { text: text@, label: label@ },
    }
}

/// Message when no line is selected.
pub open spec fn no_selection_notice() -> Seq<char> {
    "Nenhuma linha selecionada"@
}

/// Message when the selected lines are blank.
pub open spec fn blank_selection_notice() -> Seq<char> {
    "Nada para copiar (linha vazia)"@
}

/// The label shown after copying `count` lines.
pub open spec fn copied_label(count: nat) -> Seq<char> {
    if count == 1 {
        "✓ linha copiada para a área de transferência"@
    } else {
        "✓ "@ + decimal(count) + " linhas copiadas para a área de transferência"@
    }
}

/// What copying the selection does over the lines' plain texts: the
/// selected lines, the last clamped to the buffer, joined with line
/// breaks; a notice when nothing is selected or the text is blank.
pub open spec fn copy_plan_spec(selection: Option<(usize, usize)>, lines: Seq<Seq<char>>) -> CopyPlanView {
    match selection {
        None => CopyPlanView::Notice { message: no_selection_notice() },
        Some((start, end)) => if lines.len() == 0 {
            CopyPlanView::Nothing
        } else {
            let last = if end < lines.len() - 1 { end as int } else { lines.len() - 1 };
            if start > last {
                CopyPlanView::Nothing
            } else {
                let text = joined_lines(lines.subrange(start as int, last + 1));
                if trimmed(text).len() == 0 {
                    CopyPlanView::Notice { message: blank_selection_notice() }
                } else {
                    CopyPlanView::Copy { text, label: copied_label((last - start + 1) as nat) }
                }
            }
        },
    }
}

/// Decides what copying the selection does over the lines' plain texts.
pub fn copy_plan(selection: Option<(usize, usize)>, plain: &Vec<String>) -> (p: CopyPlan)
    ensures
        copy_plan_view(p) == copy_plan_spec(selection, texts(plain@)),
{
    let ghost lines = texts(plain@);
    let (start, end) = match selection {
        None => {
            return CopyPlan::Notice { message: crate::text::owned("Nenhuma linha selecionada") };
        },
        Some(se) => se,
    };
    if plain.len() == 0 {
        return CopyPlan::Nothing;
    }
    let last = if end < plain.len() - 1 { end } else { plain.len() - 1 };
    if start > last {
        return CopyPlan::Nothing;
    }
    let mut text = String::new();
    let mut i = start;
    while i <= last
        invariant
            start <= i <= last + 1,
            last < plain@.len(),
            plain@.len() <= usize::MAX,
            lines == texts(plain@),
            i > start ==> text@ == joined_lines(lines.subrange(start as int, i as int)),
            i == start ==> text@ == Seq::<char>::empty(),
        decreases last + 1 - i,
    {
        let ghost before = text@;
        if i > start {
            proof {
                reveal_strlit("\n");
            }
            text.append("\n");
        }
        text.append(plain[i].as_str());
        proof {
            let sub = lines.subrange(start as int, i + 1);
            assert(sub.drop_last() =~= lines.subrange(start as int, i as int));
            assert(sub.last() == plain@[i as int]@);
            if i == start {
                assert(sub.len() == 1);
                assert(text@ =~= sub[0]);
            } else {
                assert(text@ =~= before + seq!['\n'] + sub.last());
            }
        }
        i = i + 1;
    }
    let cs = chars_of(text.as_str());
    let t = trim_chars(cs.as_slice());
    if t.len() == 0 {
        return CopyPlan::Notice { message: crate::text::owned("Nada para copiar (linha vazia)") };
    }
    let count = last - start + 1;
    let label = if count == 1 {
        crate::text::owned("✓ linha copiada para a área de transferência")
    } else {
        let mut l = crate::text::owned("✓ ");
        let n = u64_to_decimal(count as u64);
        l.append(n.as_str());
        l.append(" linhas copiadas para a área de transferência");
        l
    };
    CopyPlan::Copy { text, label }
}

/// The rows the log pane shows: with a search, the matching lines (the
/// last ones when following, else from the first match at or below the
/// scroll position); without, the tail when following or when scrolled to
/// or past it, else the lines from the scroll position on.
pub open spec fn shown_rows<S>(m: ViewModel, lines: Seq<StyledLine<S>>, viewport: nat, width: nat) -> Seq<
    (usize, Seq<(char, S)>),
> {
    if has_term(m.term) {
        if m.matches.len() == 0 {
            seq![]
        } else if m.follow {
            last_items(tagged_rows(lines, m.matches, width), viewport)
        } else {
            let sm = match find_at_least_from(m.matches, m.scroll, 0) {
                Some(p) => p,
                None => 0,
            };
            let r = first_items(tagged_rows(lines, items_from(m.matches, sm as nat), width), viewport);
            if r.len() == 0 {
                last_items(tagged_rows(lines, m.matches, width), viewport)
            } else {
                r
            }
        }
    } else {
        let tail = last_items(tagged_rows(lines, index_range(0, lines.len()), width), viewport);
        let bottom = if tail.len() > 0 { tail[0].0 as int } else { 0 };
        if m.follow || m.scroll >= bottom {
            tail
        } else {
            first_items(
                tagged_rows(lines, index_range(m.scroll as nat, lines.len()), width),
                viewport,
            )
        }
    }
}

/// The model after the pane is laid out: without a search, reaching the
/// tail turns following on, and the scroll position becomes the first
/// shown line.
pub open spec fn laid_out<S>(m: ViewModel, lines: Seq<StyledLine<S>>, viewport: nat, width: nat) -> ViewModel {
    if has_term(m.term) {
        m
    } else {
        let tail = last_items(tagged_rows(lines, index_range(0, lines.len()), width), viewport);
        let bottom = if tail.len() > 0 { tail[0].0 as int } else { 0 };
        let rows = shown_rows(m, lines, viewport, width);
        ViewModel {
            follow: m.follow || m.scroll >= bottom,
            scroll: if rows.len() > 0 { rows[0].0 as int } else { m.scroll },
            ..m
        }
    }
}

impl ViewState {
    /// The state as mathematical values.
    pub open spec fn model(&self) -> ViewModel {
        ViewModel {
            mode: self.mode,
            scroll: self.scroll as int,
            follow: self.follow,
            input: self.input@,
            term: opt_chars(self.search_term),
            matches: self.matches@,
            cursor: self.cursor as int,
            selection: self.selection,
            anchor: self.anchor,
        }
    }

    /// The search cursor points at a match, or is 0 when there is none.
    pub open spec fn wf(&self) -> bool {
        if self.matches@.len() == 0 {
            self.cursor == 0
        } else {
            self.cursor < self.matches@.len()
        }
    }

    /// The viewer at start: following the newest lines, nothing typed,
    /// searched or selected.
    pub fn new() -> (s: ViewState)
        ensures
            s.wf(),
            s.model() == (ViewModel {
                mode: ViewMode::View,
                scroll: 0,
                follow: true,
                input: seq![],
                term: None,
                matches: seq![],
                cursor: 0,
                selection: None,
                anchor: None,
            }),
    {
        ViewState {
            mode: ViewMode::View,
            scroll: 0,
            follow: true,
            input: Vec::new(),
            search_term: None,
            matches: Vec::new(),
            cursor: 0,
            selection: None,
            anchor: None,
        }
    }


    /// Puts the current match on screen when it is not (see
    /// `scrolled_to_match`).
    pub fn scroll_to_match(&mut self, visible: &Vec<usize>, pane_height: u16)
        ensures
            final(self).model() == scrolled_to_match(old(self).model(), visible@, pane_height),
    {
        if self.cursor >= self.matches.len() {
            return;
        }
        let idx = self.matches[self.cursor];
        let first = if visible.len() > 0 { visible[0] } else { 0 };
        let last = if visible.len() > 0 { visible[visible.len() - 1] } else { 0 };
        if first <= idx && idx <= last {
            return;
        }
        let half = half_rows(pane_height);
        self.scroll = if idx >= half { idx - half } else { 0 };
        self.follow = false;
    }

    /// Recomputes the search matches over the lines' plain texts.
    pub fn refresh_search(&mut self, plain: &Vec<String>, visible: &Vec<usize>, pane_height: u16)
        requires
            old(self).scroll + pane_height <= usize::MAX,
        ensures
            final(self).model() == refreshed(old(self).model(), texts(plain@), visible@, pane_height),
            final(self).wf(),
            ascending_below(final(self).matches@, plain@.len() as int),
    {
        let ghost lines = texts(plain@);
        let empty = match &self.search_term {
            Some(t) => t.len() == 0,
            None => true,
        };
        if empty {
            self.matches = Vec::new();
            self.cursor = 0;
            return;
        }
        let term_text = match &self.search_term {
            Some(t) => crate::text::string_of(t.as_slice()),
            None => String::new(),
        };
        let needle_text = to_lowercase(term_text.as_str());
        let needle = chars_of(needle_text.as_str());
        let mut ms: Vec<usize> = Vec::new();
        let mut i: usize = 0;
        while i < plain.len()
            invariant
                i <= plain@.len(),
                lines == texts(plain@),
                needle@ == unicode_lower(term_text@),
                ms@ == matching_lines(lines, term_text@, i as int),
            decreases plain@.len() - i,
        {
            let lower = to_lowercase(plain[i].as_str());
            let hay = chars_of(lower.as_str());
            if contains_chars(&hay, &needle) {
                ms.push(i);
            }
            i = i + 1;
        }
        proof {
            lemma_matching_ascending(lines, term_text@, plain@.len() as int);
        }
        self.matches = ms;
        if self.matches.len() == 0 {
            self.cursor = 0;
        } else if !self.follow {
            let center = self.scroll + half_rows(pane_height);
            let mut best: usize = 0;
            let mut k: usize = 1;
            while k < self.matches.len()
                invariant
                    1 <= k <= self.matches@.len(),
                    best == nearest_upto(self.matches@, center as int, k as int),
                decreases self.matches@.len() - k,
            {
                proof {
                    lemma_nearest_in_range(self.matches@, center as int, k as int);
                }
                if distance(self.matches[k], center) < distance(self.matches[best], center) {
                    best = k;
                }
                k = k + 1;
            }
            proof {
                lemma_nearest_in_range(self.matches@, center as int, self.matches@.len() as int);
            }
            self.cursor = best;
            self.scroll_to_match(visible, pane_height);
        } else {
            self.cursor = self.matches.len() - 1;
        }
    }

    /// Moves to the next (or previous) match and puts it on screen.
    pub fn navigate_search(&mut self, forward: bool, visible: &Vec<usize>, pane_height: u16)
        requires
            old(self).wf(),
        ensures
            final(self).model() == navigated(old(self).model(), forward, visible@, pane_height),
            final(self).wf(),
    {
        if self.matches.len() == 0 {
            return;
        }
        self.cursor = navigate_cursor(self.cursor, self.matches.len(), forward);
        self.scroll_to_match(visible, pane_height);
    }

    /// Starts a search for `term` from the command bar: the term becomes
    /// both the search and the search input; the caller then refreshes.
    pub fn set_search(&mut self, term: Vec<char>)
        ensures
            final(self).model() == (ViewModel {
                term: Some(term@),
                input: term@,
                ..old(self).model()
            }),
            old(self).wf() ==> final(self).wf(),
    {
        self.input = copy_chars(&term);
        self.search_term = Some(term);
    }


    /// Drops the lines beyond `SCROLLBACK` from a buffer of `len` lines:
    /// returns how many of the oldest lines the caller must drop, and
    /// renumbers what points into the buffer.
    pub fn trim_scrollback(&mut self, len: usize) -> (overflow: usize)
        ensures
            overflow == if len > SCROLLBACK { len - SCROLLBACK } else { 0 },
            final(self).model() == if len > SCROLLBACK {
                trimmed_model(old(self).model(), overflow as int)
            } else {
                old(self).model()
            },
            old(self).wf() ==> final(self).wf(),
    {
        if len <= SCROLLBACK {
            return 0;
        }
        let overflow = len - SCROLLBACK;
        self.scroll = if self.scroll >= overflow { self.scroll - overflow } else { 0 };
        self.selection = match self.selection {
            Some((s, e)) => if e < overflow {
                None
            } else {
                Some((if s >= overflow { s - overflow } else { 0 }, e - overflow))
            },
            None => None,
        };
        self.anchor = match self.anchor {
            Some(a) => if a < overflow {
                None
            } else {
                Some(a - overflow)
            },
            None => None,
        };
        if self.matches.len() > 0 {
            let old_match: Option<usize> = if self.cursor < self.matches.len() {
                Some(self.matches[self.cursor])
            } else {
                None
            };
            let ghost old_ms = self.matches@;
            let mut ms: Vec<usize> = Vec::new();
            let mut i: usize = 0;
            while i < self.matches.len()
                invariant
                    i <= self.matches@.len(),
                    ms@ == shifted_matches(self.matches@.subrange(0, i as int), overflow as int),
                decreases self.matches@.len() - i,
            {
                let ghost prefix = self.matches@.subrange(0, i + 1);
                assert(prefix.drop_last() =~= self.matches@.subrange(0, i as int));
                let v = self.matches[i];
                if v >= overflow {
                    ms.push(v - overflow);
                }
                i = i + 1;
            }
            assert(self.matches@.subrange(0, self.matches@.len() as int) =~= self.matches@);
            let mut cursor: usize = 0;
            match old_match {
                Some(c) => {
                    let adj = if c >= overflow { c - overflow } else { 0 };
                    let mut k: usize = 0;
                    while k < ms.len() && ms[k] != adj
                        invariant
                            k <= ms@.len(),
                            find_value_from(ms@, adj, 0) == find_value_from(ms@, adj, k as int),
                        decreases ms@.len() - k,
                    {
                        k = k + 1;
                    }
                    if k < ms.len() {
                        cursor = k;
                    }
                },
                None => {},
            }
            self.matches = ms;
            self.cursor = cursor;
        }
        overflow
    }

    /// Handles a mouse event over the log pane (`log_area`) and the search
    /// results pane (`search_area`), whose content rows show the lines in
    /// `visible`; returns whether the selection must be copied.
    pub fn on_mouse(&mut self, ev: MouseInput, log_area: Pane, search_area: Pane, visible: &Vec<usize>) -> (copy: bool)
        requires
            pane_ok(log_area),
            pane_ok(search_area),
            ev is ScrollDown ==> old(self).scroll + 3 <= usize::MAX,
        ensures
            (final(self).model(), copy) == mouse_step(old(self).model(), ev, log_area, search_area, visible@),
            old(self).wf() ==> final(self).wf(),
    {
        match ev {
            MouseInput::ScrollUp => {
                self.follow = false;
                self.scroll = if self.scroll >= 3 { self.scroll - 3 } else { 0 };
                false
            },
            MouseInput::ScrollDown => {
                self.scroll = self.scroll + 3;
                false
            },
            MouseInput::Down { column, row } => {
                let searching = match &self.search_term {
                    Some(t) => t.len() > 0,
                    None => false,
                };
                if searching && self.mode == ViewMode::View && column >= search_area.x && column
                    < search_area.x + search_area.width && search_area.height > 2 && row > search_area.y
                    && row < search_area.y + search_area.height - 1 {
                    self.mode = ViewMode::Search;
                    self.input = match &self.search_term {
                        Some(t) => copy_chars(t),
                        None => Vec::new(),
                    };
                    return false;
                }
                let inside = column >= log_area.x && column < log_area.x + log_area.width
                    && log_area.height > 2 && row >= log_area.y + 1 && row < log_area.y + log_area.height
                    - 1;
                match row_to_line_idx(visible, log_area.y, log_area.height, row, false) {
                    Some(i) => {
                        if inside {
                            self.anchor = Some(i);
                            self.selection = Some((i, i));
                        } else {
                            self.selection = None;
                        }
                    },
                    None => {
                        self.selection = None;
                    },
                }
                false
            },
            MouseInput::Drag { row } => {
                match (self.anchor, row_to_line_idx(visible, log_area.y, log_area.height, row, true)) {
                    (Some(a), Some(i)) => {
                        self.selection = Some(if a <= i { (a, i) } else { (i, a) });
                    },
                    _ => {},
                }
                false
            },
            MouseInput::Up => {
                if self.anchor.is_some() {
                    self.anchor = None;
                    true
                } else {
                    false
                }
            },
            MouseInput::Other => false,
        }
    }

    /// Lays out the log pane: the rows to show, `viewport` of them at
    /// `width` cells, each with the index of its line.
    pub fn log_rows<S: Copy>(&mut self, lines: &Vec<StyledLine<S>>, viewport: usize, width: usize) -> (rows: Vec<
        (usize, StyledLine<S>),
    >)
        requires
            forall|k: int| 0 <= k < old(self).matches@.len() ==> #[trigger] old(self).matches@[k] < lines@.len(),
        ensures
            rows_view(rows@) == shown_rows(old(self).model(), lines@, viewport as nat, width as nat),
            final(self).model() == laid_out(old(self).model(), lines@, viewport as nat, width as nat),
            rows_one_char(rows@),
            old(self).wf() ==> final(self).wf(),
    {
        let searching = match &self.search_term {
            Some(t) => t.len() > 0,
            None => false,
        };
        if searching {
            if self.matches.len() == 0 {
                let r: Vec<(usize, StyledLine<S>)> = Vec::new();
                assert(rows_view(r@) =~= Seq::<(usize, Seq<(char, S)>)>::empty());
                return r;
            }
            if self.follow {
                return build_filtered_tail_rows(lines, &self.matches, viewport, width);
            }
            let mut p: usize = 0;
            while p < self.matches.len() && self.matches[p] < self.scroll
                invariant
                    p <= self.matches@.len(),
                    find_at_least_from(self.matches@, self.scroll as int, 0) == find_at_least_from(
                        self.matches@,
                        self.scroll as int,
                        p as int,
                    ),
                decreases self.matches@.len() - p,
            {
                p = p + 1;
            }
            let sm = if p < self.matches.len() { p } else { 0 };
            let r = build_filtered_rows(lines, &self.matches, sm, viewport, width);
            if r.len() == 0 {
                return build_filtered_tail_rows(lines, &self.matches, viewport, width);
            }
            return r;
        }
        let tail = build_tail_rows(lines, viewport, width);
        let rows = if self.follow {
            tail
        } else {
            let bottom = if tail.len() > 0 { tail[0].0 } else { 0 };
            proof {
                if tail@.len() > 0 {
                    assert(rows_view(tail@)[0].0 == tail@[0].0);
                }
            }
            if self.scroll >= bottom {
                self.follow = true;
                tail
            } else {
                build_display_rows(lines, self.scroll, viewport, width)
            }
        };
        if rows.len() > 0 {
            self.scroll = rows[0].0;
            assert(rows_view(rows@)[0].0 == rows@[0].0);
        }
        rows
    }

    fn clear_search(&mut self)
        ensures
            final(self).model() == search_cleared(old(self).model()),
    {
        self.search_term = None;
        self.matches = Vec::new();
        self.cursor = 0;
    }

    /// Handles a key press.
    pub fn on_key(&mut self, key: Key) -> (e: KeyEffect)
        requires
            old(self).scroll + scroll_down_by(old(self).mode, key) <= usize::MAX,
        ensures
            (final(self).model(), effect_view(e)) == key_step(old(self).model(), key),
            old(self).wf() ==> final(self).wf(),
    {
        match self.mode {
            ViewMode::View => self.view_key(key),
            ViewMode::Command => self.command_key(key),
            ViewMode::Search => self.search_key(key),
        }
    }

    fn view_key(&mut self, key: Key) -> (e: KeyEffect)
        requires
            old(self).mode == ViewMode::View,
            old(self).scroll + scroll_down_by(old(self).mode, key) <= usize::MAX,
        ensures
            (final(self).model(), effect_view(e)) == view_key(old(self).model(), key),
            old(self).wf() ==> final(self).wf(),
    {
        let searching = match &self.search_term {
            Some(t) => t.len() > 0,
            None => false,
        };
        match key {
            Key::Char { c, ctrl } => {
                if (c == 'c' && ctrl) || c == 'q' {
                    KeyEffect::Quit
                } else if c == 'y' {
                    KeyEffect::Copy
                } else if c == '/' {
                    self.mode = ViewMode::Search;
                    self.input = match &self.search_term {
                        Some(t) => copy_chars(t),
                        None => Vec::new(),
                    };
                    KeyEffect::RefreshSearch
                } else if c == 'n' && searching {
                    KeyEffect::NavigateSearch { forward: true }
                } else if c == 'N' && searching {
                    KeyEffect::NavigateSearch { forward: false }
                } else {
                    if c == 'j' {
                        self.follow = true;
                    }
                    KeyEffect::ToggleAlias { c }
                }
            },
            Key::Enter => {
                self.mode = ViewMode::Command;
                self.input = Vec::new();
                KeyEffect::Nothing
            },
            Key::PageUp => {
                self.follow = false;
                self.scroll = if self.scroll >= 10 { self.scroll - 10 } else { 0 };
                KeyEffect::Nothing
            },
            Key::PageDown => {
                self.scroll = self.scroll + 10;
                KeyEffect::Nothing
            },
            Key::Up => {
                self.follow = false;
                self.scroll = if self.scroll >= 1 { self.scroll - 1 } else { 0 };
                KeyEffect::Nothing
            },
            Key::Down => {
                self.scroll = self.scroll + 1;
                KeyEffect::Nothing
            },
            Key::Esc => {
                if searching {
                    self.clear_search();
                }
                KeyEffect::Nothing
            },
            _ => KeyEffect::Nothing,
        }
    }

    fn command_key(&mut self, key: Key) -> (e: KeyEffect)
        requires
            old(self).mode == ViewMode::Command,
        ensures
            (final(self).model(), effect_view(e)) == command_key(old(self).model(), key),
            old(self).wf() ==> final(self).wf(),
    {
        match key {
            Key::Esc => {
                self.mode = ViewMode::View;
                self.input = Vec::new();
                KeyEffect::Nothing
            },
            Key::Enter => {
                let cmd = trim_chars(self.input.as_slice());
                self.mode = ViewMode::View;
                self.input = Vec::new();
                if cmd.len() > 0 {
                    KeyEffect::Execute { command: cmd }
                } else {
                    KeyEffect::Nothing
                }
            },
            Key::Backspace => {
                self.input.pop();
                KeyEffect::Nothing
            },
            Key::Char { c, ctrl } => {
                self.input.push(c);
                KeyEffect::Nothing
            },
            _ => KeyEffect::Nothing,
        }
    }

    fn search_key(&mut self, key: Key) -> (e: KeyEffect)
        requires
            old(self).mode == ViewMode::Search,
        ensures
            (final(self).model(), effect_view(e)) == search_key(old(self).model(), key),
            old(self).wf() ==> final(self).wf(),
    {
        match key {
            Key::Char { c, ctrl } => {
                if c == 'y' {
                    KeyEffect::Copy
                } else {
                    self.input.push(c);
                    self.search_term = Some(copy_chars(&self.input));
                    KeyEffect::RefreshSearch
                }
            },
            Key::Esc => {
                self.clear_search();
                self.input = Vec::new();
                self.mode = ViewMode::View;
                KeyEffect::Nothing
            },
            Key::Enter => {
                let t = trim_chars(self.input.as_slice());
                if t.len() == 0 {
                    self.clear_search();
                } else {
                    self.input = copy_chars(&t);
                    self.search_term = Some(t);
                }
                self.mode = ViewMode::View;
                KeyEffect::Nothing
            },
            Key::Backspace => {
                self.input.pop();
                if self.input.len() == 0 {
                    self.matches = Vec::new();
                    self.cursor = 0;
                    KeyEffect::Nothing
                } else {
                    self.search_term = Some(copy_chars(&self.input));
                    KeyEffect::RefreshSearch
                }
            },
            _ => KeyEffect::Nothing,
        }
    }
}

/// With a search term in the log view, `n` moves to the next match and
/// `N` to the previous one; neither key changes the view itself.
pub proof fn law_n_and_shift_n_search_opposite_ways(m: ViewModel)
    requires
        m.mode == ViewMode::View,
        m.term matches Some(t) && t.len() > 0,
    ensures
        key_step(m, Key::Char { c: 'n', ctrl: false }) == (m, EffectView::NavigateSearch { forward: true }),
        key_step(m, Key::Char { c: 'N', ctrl: false }) == (m, EffectView::NavigateSearch { forward: false }),
{
}

/// In the log view, `q` and Ctrl-C quit, `y` copies the selection, `/`
/// opens the search bar with the current term, and Enter opens an empty
/// command bar; none of them scrolls.
pub proof fn law_view_mode_keys(m: ViewModel)
    requires
        m.mode == ViewMode::View,
    ensures
        key_step(m, Key::Char { c: 'q', ctrl: false }) == (m, EffectView::Quit),
        key_step(m, Key::Char { c: 'c', ctrl: true }) == (m, EffectView::Quit),
        key_step(m, Key::Char { c: 'y', ctrl: false }) == (m, EffectView::Copy),
        key_step(m, Key::Char { c: '/', ctrl: false }).0.mode == ViewMode::Search,
        key_step(m, Key::Char { c: '/', ctrl: false }).0.input == term_or_empty(m.term),
        key_step(m, Key::Enter).0.mode == ViewMode::Command,
        key_step(m, Key::Enter).0.input == Seq::<char>::empty(),
        key_step(m, Key::Enter).0.scroll == m.scroll,
{
}

} // verus!
