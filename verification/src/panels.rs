//! What the side panel, the search bar and the log pane's title say: the
//! service list with its keys, the animated spark, and the counters.
use vstd::prelude::*;

use crate::filters::{initial, logs_key, state_view};
use crate::routes::Route;
use crate::text::{decimal, push_char, same_text, to_ascii_lower, trim_leading_slashes, u64_to_decimal, without_leading_slashes};

verus! {

/// Position of the first route labelled `label` at or after `i`.
pub open spec fn route_with_label(routes: Seq<Route>, label: Seq<char>, i: int) -> Option<int>
    decreases routes.len() - i,
{
    if i < 0 || i >= routes.len() {
        None
    } else if routes[i].label@ == label {
        Some(i)
    } else {
        route_with_label(routes, label, i + 1)
    }
}

/// The key shown beside a service: "l" for the client logs; else the
/// prefix, without leading slashes, of the first route with that label;
/// else the label's lowercased first character (nothing for an empty
/// label).
pub open spec fn shown_alias(label: Seq<char>, routes: Seq<Route>) -> Seq<char> {
    if label == logs_key() {
        "l"@
    } else {
        match route_with_label(routes, label, 0) {
            Some(i) => trim_leading_slashes(routes[i].prefix@),
            None => match initial(label) {
                Some(c) => seq![c],
                None => seq![],
            },
        }
    }
}

/// `s` padded with spaces on the right to `w` characters.
pub open spec fn padded(s: Seq<char>, w: nat) -> Seq<char> {
    if s.len() >= w {
        s
    } else {
        s + Seq::new((w - s.len()) as nat, |i: int| ' ')
    }
}

/// A line of the service list.
pub struct ServiceEntry {
    /// Whether the service's lines are shown.
    pub enabled: bool,
    /// A space, then the label padded to 13 characters.
    pub label: String,
    /// The toggle key in parentheses.
    pub alias: String,
}

/// The service list for the filter entries and routes.
pub open spec fn service_entry_ok(e: ServiceEntry, entry: (Seq<char>, bool), routes: Seq<Route>) -> bool {
    &&& e.enabled == entry.1
    &&& e.label@ == seq![' '] + padded(entry.0, 13)
    &&& e.alias@ == "("@ + shown_alias(entry.0, routes) + ")"@
}

fn alias_for(label: &String, routes: &Vec<Route>) -> (r: String)
    ensures
        r@ == shown_alias(label@, routes@),
{
    if same_text(label.as_str(), "Logs") {
        return crate::text::owned("l");
    }
    let mut i: usize = 0;
    while i < routes.len()
        invariant
            i <= routes@.len(),
            label@ != logs_key(),
            route_with_label(routes@, label@, 0) == route_with_label(routes@, label@, i as int),
        decreases routes@.len() - i,
    {
        if same_text(routes[i].label.as_str(), label.as_str()) {
            return without_leading_slashes(routes[i].prefix.as_str());
        }
        i = i + 1;
    }
    let cs = crate::text::chars_of(label.as_str());
    let mut r = String::new();
    if cs.len() > 0 {
        push_char(&mut r, to_ascii_lower(cs[0]));
    }
    assert(r@ =~= shown_alias(label@, routes@));
    r
}

fn padded_label(label: &String) -> (r: String)
    ensures
        r@ == seq![' '] + padded(label@, 13),
{
    let cs = crate::text::chars_of(label.as_str());
    let mut r = String::new();
    push_char(&mut r, ' ');
    r.append(label.as_str());
    let mut n = cs.len();
    assert(r@ =~= seq![' '] + label@);
    while n < 13
        invariant
            n >= cs@.len(),
            n <= 13 || n == cs@.len(),
            cs@ == label@,
            r@ == seq![' '] + label@ + Seq::new((n - cs@.len()) as nat, |i: int| ' '),
        decreases 13 - n,
    {
        let ghost before = r@;
        push_char(&mut r, ' ');
        n = n + 1;
        assert(r@ =~= seq![' '] + label@ + Seq::new((n - cs@.len()) as nat, |i: int| ' '));
    }
    if cs.len() >= 13 {
        assert(Seq::new(0nat, |i: int| ' ') =~= Seq::<char>::empty());
        assert(r@ =~= seq![' '] + padded(label@, 13));
    } else {
        assert(r@ =~= seq![' '] + padded(label@, 13));
    }
    r
}

/// The service list of the side panel: one entry per filter entry, in
/// order, with its state, padded label and toggle key.
pub fn service_entries(state: &Vec<(String, bool)>, routes: &Vec<Route>) -> (r: Vec<ServiceEntry>)
    ensures
        r@.len() == state@.len(),
        forall|k: int| 0 <= k < r@.len() ==> service_entry_ok(#[trigger] r@[k], state_view(state@)[k], routes@),
{
    let mut r: Vec<ServiceEntry> = Vec::new();
    let mut i: usize = 0;
    while i < state.len()
        invariant
            i <= state@.len(),
            r@.len() == i,
            forall|k: int| 0 <= k < i ==> service_entry_ok(#[trigger] r@[k], state_view(state@)[k], routes@),
        decreases state@.len() - i,
    {
        let label = &state[i].0;
        let alias = crate::text::concat3("(", alias_for(label, routes).as_str(), ")");
        r.push(ServiceEntry { enabled: state[i].1, label: padded_label(label), alias });
        i = i + 1;
    }
    r
}

/// Frames of the spinner in the title bar.
pub open spec fn spinner_frames() -> Seq<char> {
    seq!['⠋', '⠙', '⠹', '⠸', '⠼', '⠴', '⠦', '⠧', '⠇', '⠏']
}

/// The spinner frame shown at an animation tick: it advances every other
/// tick.
pub fn spinner_frame(tick: u64) -> (c: char)
    ensures
        c == spinner_frames()[((tick / 2) % 10) as int],
{
    let k = (tick / 2) % 10;
    if k == 0 {
        '⠋'
    } else if k == 1 {
        '⠙'
    } else if k == 2 {
        '⠹'
    } else if k == 3 {
        '⠸'
    } else if k == 4 {
        '⠼'
    } else if k == 5 {
        '⠴'
    } else if k == 6 {
        '⠦'
    } else if k == 7 {
        '⠧'
    } else if k == 8 {
        '⠇'
    } else {
        '⠏'
    }
}

/// Shapes the spark takes in turn.
pub open spec fn spark_frames() -> Seq<char> {
    seq!['·', '✢', '✳', '✻', '✳', '✢']
}

/// The spark of the side panel at an animation tick.
pub struct Spark {
    /// The row with the spark and the row with its trail.
    pub spark_row: Vec<char>,
    pub trail_row: Vec<char>,
    /// Whether the spark row is the upper one.
    pub spark_on_top: bool,
    /// Column of the spark.
    pub column: usize,
}

/// Columns the spark moves over.
pub open spec fn spark_width(inner_width: nat) -> nat {
    if inner_width < 6 { 6 } else { inner_width }
}

/// Column of the spark: it moves one column every three ticks, right to
/// the last column, then back left to the first.
pub open spec fn spark_column(inner_width: nat, tick: nat) -> nat {
    let span = (spark_width(inner_width) - 1) as nat;
    let period = span * 2;
    let step = (tick / 3) % period;
    if step <= span {
        step
    } else {
        (period - step) as nat
    }
}

/// Column of the glint behind the spark: one column behind where it came
/// from, kept inside the row.
pub open spec fn trail_column(inner_width: nat, tick: nat) -> nat {
    let width = spark_width(inner_width);
    let span = (width - 1) as nat;
    let step = (tick / 3) % (span * 2);
    let pos = spark_column(inner_width, tick);
    if step <= span {
        if pos >= 1 { (pos - 1) as nat } else { 0 }
    } else if pos + 1 < width {
        pos + 1
    } else {
        (width - 1) as nat
    }
}

/// The spark's two rows: blank but for the spark glyph, and for the glint
/// `'·'` when it is not under the spark; the spark row is on top during
/// the first nine of every eighteen ticks.
pub open spec fn spark_ok(s: Spark, inner_width: nat, tick: nat) -> bool {
    let width = spark_width(inner_width);
    let pos = spark_column(inner_width, tick);
    let trail = trail_column(inner_width, tick);
    &&& s.column == pos
    &&& s.spark_row@.len() == width
    &&& s.trail_row@.len() == width
    &&& s.spark_on_top == ((tick / 9) % 2 == 0)
    &&& forall|i: int| 0 <= i < width ==> #[trigger] s.spark_row@[i] == if i == pos {
        spark_frames()[((tick / 3) % 6) as int]
    } else {
        ' '
    }
    &&& forall|i: int| 0 <= i < width ==> #[trigger] s.trail_row@[i] == if i == trail && trail != pos {
        '·'
    } else {
        ' '
    }
}

fn spark_glyph(k: u64) -> (c: char)
    requires
        k < 6,
    ensures
        c == spark_frames()[k as int],
{
    if k == 0 {
        '·'
    } else if k == 1 || k == 5 {
        '✢'
    } else if k == 2 || k == 4 {
        '✳'
    } else {
        '✻'
    }
}

/// The spark for a panel `inner_width` columns wide at an animation tick.
pub fn spark(inner_width: usize, tick: u64) -> (s: Spark)
    requires
        inner_width < usize::MAX / 2,
    ensures
        spark_ok(s, inner_width as nat, tick as nat),
{
    let width: usize = if inner_width < 6 { 6 } else { inner_width };
    let span: u64 = (width - 1) as u64;
    let period: u64 = span * 2;
    let step: u64 = (tick / 3) % period;
    let rising = step <= span;
    let pos: usize = if rising { step as usize } else { (period - step) as usize };
    let trail: usize = if rising {
        if pos >= 1 { pos - 1 } else { 0 }
    } else if pos + 1 < width {
        pos + 1
    } else {
        width - 1
    };
    let glyph = spark_glyph((tick / 3) % 6);
    let mut spark_row: Vec<char> = Vec::new();
    let mut trail_row: Vec<char> = Vec::new();
    let mut i: usize = 0;
    while i < width
        invariant
            i <= width,
            spark_row@.len() == i,
            trail_row@.len() == i,
            forall|j: int| 0 <= j < i ==> #[trigger] spark_row@[j] == if j == pos { glyph } else { ' ' },
            forall|j: int| 0 <= j < i ==> #[trigger] trail_row@[j] == if j == trail && trail != pos {
                '·'
            } else {
                ' '
            },
        decreases width - i,
    {
        spark_row.push(if i == pos { glyph } else { ' ' });
        trail_row.push(if i == trail && trail != pos { '·' } else { ' ' });
        i = i + 1;
    }
    Spark { spark_row, trail_row, spark_on_top: (tick / 9) % 2 == 0, column: pos }
}

/// The match counter of the search bar.
pub open spec fn search_count_spec(term_len: nat, total: nat, cursor: nat) -> Seq<char> {
    if term_len == 0 {
        "(type to search)"@
    } else if total == 0 {
        "(0 matches)"@
    } else {
        let current = if cursor < total { cursor + 1 } else { total };
        "("@ + decimal(current) + "/"@ + decimal(total) + " matches)"@
    }
}

/// The match counter shown in the search bar.
pub fn search_count_text(term_len: usize, total: usize, cursor: usize) -> (r: String)
    ensures
        r@ == search_count_spec(term_len as nat, total as nat, cursor as nat),
{
    if term_len == 0 {
        return crate::text::owned("(type to search)");
    }
    if total == 0 {
        return crate::text::owned("(0 matches)");
    }
    let current = if cursor < total { cursor + 1 } else { total };
    let a = u64_to_decimal(current as u64);
    let b = u64_to_decimal(total as u64);
    let mut r = crate::text::concat3("(", a.as_str(), "/");
    r.append(b.as_str());
    r.append(" matches)");
    r
}

/// The title of the log pane.
pub open spec fn log_title_spec(searching: bool, follow: bool, total: nat, cursor: nat) -> Seq<char> {
    if searching {
        if follow {
            " logs · filtered "@ + decimal(total) + " · following "@
        } else {
            " logs · filtered "@ + decimal(cursor + 1) + "/"@ + decimal(total) + " "@
        }
    } else if follow {
        " logs · following "@
    } else {
        " logs · click or drag to copy "@
    }
}

/// The title of the log pane: what is shown and where the search cursor
/// is.
pub fn log_title(searching: bool, follow: bool, total: usize, cursor: usize) -> (r: String)
    requires
        cursor < usize::MAX,
    ensures
        r@ == log_title_spec(searching, follow, total as nat, cursor as nat),
{
    if searching {
        if follow {
            let t = u64_to_decimal(total as u64);
            crate::text::concat3(" logs · filtered ", t.as_str(), " · following ")
        } else {
            let c = u64_to_decimal((cursor + 1) as u64);
            let t = u64_to_decimal(total as u64);
            let mut r = crate::text::concat3(" logs · filtered ", c.as_str(), "/");
            r.append(t.as_str());
            r.append(" ");
            r
        }
    } else if follow {
        crate::text::owned(" logs · following ")
    } else {
        crate::text::owned(" logs · click or drag to copy ")
    }
}

} // verus!
