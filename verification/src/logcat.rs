//! Android logcat capture: its configuration, its status, and how its
//! output lines are classified and written to the log.
use vstd::prelude::*;

use crate::colors::{CYAN, DIM, GREEN, RED, RESET, YELLOW};
use crate::text::{chars_of, decimal, or_default_text, owned, push_char, same_text, string_of, trim_chars, trimmed, u64_to_decimal};

verus! {

/// Filter label of logcat lines.
pub const ANDROID_KEY: &'static str = "Android";

/// The `logcat` section of the configuration.
pub struct LogcatConfig {
    pub enabled: Option<bool>,
    pub level: Option<String>,
    pub buffer: Option<String>,
}

impl Default for LogcatConfig {
    /// Disabled, warnings and above, main buffer.
    fn default() -> (c: Self)
        ensures
            c.enabled == Some(false),
            c.level matches Some(l) && l@ == "*:W"@,
            c.buffer matches Some(b) && b@ == "main"@,
    {
        LogcatConfig { enabled: Some(false), level: Some(owned("*:W")), buffer: Some(owned("main")) }
    }
}

impl LogcatConfig {
    /// The filter used when none is given: the configured level, or
    /// "*:W".
    pub fn default_filter(&self) -> (r: String)
        ensures
            r@ == match self.level {
                Some(l) => l@,
                None => "*:W"@,
            },
    {
        or_default_text(&self.level, "*:W")
    }

    /// The log buffer to read: the configured one, or "main".
    pub fn buffer_arg(&self) -> (r: String)
        ensures
            r@ == match self.buffer {
                Some(b) => b@,
                None => "main"@,
            },
    {
        or_default_text(&self.buffer, "main")
    }
}

/// State of the logcat capture.
pub struct LogcatState {
    pub running: bool,
    pub pid: Option<u32>,
    pub lines_captured: u64,
    pub filter: String,
    pub started_at: Option<String>,
}

impl LogcatState {
    /// Not running, nothing captured, with the given filter.
    pub fn new(filter: &str) -> (s: LogcatState)
        ensures
            !s.running,
            s.pid is None,
            s.lines_captured == 0,
            s.filter@ == filter@,
            s.started_at is None,
    {
        LogcatState { running: false, pid: None, lines_captured: 0, filter: owned(filter), started_at: None }
    }

    /// Whether capture is running.
    pub fn is_running(&self) -> (r: bool)
        ensures
            r == self.running,
    {
        self.running
    }

    /// How many lines were captured.
    pub fn line_count(&self) -> (r: u64)
        ensures
            r == self.lines_captured,
    {
        self.lines_captured
    }
}

/// The priority letter a logcat line in brief format carries: its first
/// character when the second is `/` and the first is one of V, D, I, W, E,
/// F; otherwise V.
pub open spec fn line_priority(clean: Seq<char>) -> char {
    if clean.len() >= 2 && clean[1] == '/' && (clean[0] == 'V' || clean[0] == 'D' || clean[0]
        == 'I' || clean[0] == 'W' || clean[0] == 'E' || clean[0] == 'F') {
        clean[0]
    } else {
        'V'
    }
}

/// Splits a raw logcat line into its priority letter and its text with
/// surrounding white space removed.
pub fn parse_logcat_line(raw: &str) -> (r: (String, String))
    ensures
        r.1@ == trimmed(raw@),
        r.0@ == seq![line_priority(trimmed(raw@))],
{
    let cs = chars_of(raw);
    let clean = trim_chars(&cs);
    let mut p = String::new();
    if clean.len() >= 2 && clean[1] == '/' && (clean[0] == 'V' || clean[0] == 'D' || clean[0] == 'I'
        || clean[0] == 'W' || clean[0] == 'E' || clean[0] == 'F') {
        push_char(&mut p, clean[0]);
    } else {
        push_char(&mut p, 'V');
    }
    (p, string_of(&clean))
}

/// The color of a priority: red for F and E, yellow for W, green for I,
/// cyan for D, dim otherwise.
pub open spec fn priority_escape(p: Seq<char>) -> Seq<char> {
    if p == "F"@ || p == "E"@ {
        RED@
    } else if p == "W"@ {
        YELLOW@
    } else if p == "I"@ {
        GREEN@
    } else if p == "D"@ {
        CYAN@
    } else {
        DIM@
    }
}

/// Color escape of a logcat priority.
pub fn priority_color(p: &str) -> (r: &'static str)
    ensures
        r@ == priority_escape(p@),
{
    if same_text(p, "F") || same_text(p, "E") {
        RED
    } else if same_text(p, "W") {
        YELLOW
    } else if same_text(p, "I") {
        GREEN
    } else if same_text(p, "D") {
        CYAN
    } else {
        DIM
    }
}

/// The log line written for a captured logcat line at time `ts`:
/// "{DIM}[ts]{RESET} {color}Android/{priority}{RESET} {text}".
pub open spec fn logcat_log_text(ts: Seq<char>, raw: Seq<char>) -> Seq<char> {
    let clean = trimmed(raw);
    let p = seq![line_priority(clean)];
    DIM@ + "["@ + ts + "]"@ + RESET@ + " "@ + priority_escape(p) + ANDROID_KEY@ + "/"@ + p + RESET@
        + " "@ + clean
}

/// Formats a captured logcat line for the log.
pub fn format_logcat_line(ts: &str, raw: &str) -> (r: String)
    ensures
        r@ == logcat_log_text(ts@, raw@),
{
    let (priority, clean) = parse_logcat_line(raw);
    let color = priority_color(priority.as_str());
    let mut r = owned(DIM);
    r.append("[");
    r.append(ts);
    r.append("]");
    r.append(RESET);
    r.append(" ");
    r.append(color);
    r.append(ANDROID_KEY);
    r.append("/");
    r.append(priority.as_str());
    r.append(RESET);
    r.append(" ");
    r.append(clean.as_str());
    r
}

/// The arguments `adb` is started with: `logcat -v brief -b {buffer}
/// {filter}`, where an empty filter means the configured default (or
/// "*:W") and the buffer is the configured one (or "main").
pub open spec fn logcat_args_spec(config: Option<LogcatConfig>, filter: Seq<char>) -> Seq<Seq<char>> {
    let actual = if filter.len() > 0 {
        filter
    } else {
        match config {
            Some(c) => match c.level {
                Some(l) => l@,
                None => "*:W"@,
            },
            None => "*:W"@,
        }
    };
    let buffer = match config {
        Some(c) => match c.buffer {
            Some(b) => b@,
            None => "main"@,
        },
        None => "main"@,
    };
    seq!["logcat"@, "-v"@, "brief"@, "-b"@, buffer, actual]
}

/// The `adb` arguments for a capture with the given filter.
pub fn logcat_args(config: &Option<LogcatConfig>, filter: &str) -> (r: Vec<String>)
    ensures
        r@.map_values(|s: String| s@) == logcat_args_spec(*config, filter@),
{
    let actual = if !filter.is_empty() {
        owned(filter)
    } else {
        match config {
            Some(c) => c.default_filter(),
            None => owned("*:W"),
        }
    };
    let buffer = match config {
        Some(c) => c.buffer_arg(),
        None => owned("main"),
    };
    let r = vec![owned("logcat"), owned("-v"), owned("brief"), owned("-b"), buffer, actual];
    assert(r@.map_values(|s: String| s@) =~= logcat_args_spec(*config, filter@));
    r
}

/// Whether the configuration enables logcat capture (it is off unless
/// explicitly enabled).
pub fn logcat_enabled(config: &Option<LogcatConfig>) -> (r: bool)
    ensures
        r == (config matches Some(c) && c.enabled == Some(true)),
{
    match config {
        Some(c) => match c.enabled {
            Some(e) => e,
            None => false,
        },
        None => false,
    }
}

/// The status line of the capture: running with pid, filter, count and
/// start time (`?` for an unknown pid or time), or stopped with the filter.
pub open spec fn logcat_status_text(s: LogcatState) -> Seq<char> {
    if s.running {
        GREEN@ + "Logcat: RUNNING"@ + RESET@ + " (pid "@ + match s.pid {
            Some(p) => decimal(p as nat),
            None => "?"@,
        } + ", filter: "@ + s.filter@ + ", "@ + decimal(s.lines_captured as nat) + " lines, since ["@
            + match s.started_at {
            Some(t) => t@,
            None => "?"@,
        } + "])"@
    } else {
        DIM@ + "Logcat: stopped"@ + RESET@ + " (filter: "@ + s.filter@ + ")"@
    }
}

/// Describes the capture state.
pub fn logcat_status(s: &LogcatState) -> (r: String)
    ensures
        r@ == logcat_status_text(*s),
{
    if s.running {
        let mut r = owned(GREEN);
        r.append("Logcat: RUNNING");
        r.append(RESET);
        r.append(" (pid ");
        match s.pid {
            Some(p) => {
                let d = u64_to_decimal(p as u64);
                r.append(d.as_str());
            },
            None => r.append("?"),
        }
        r.append(", filter: ");
        r.append(s.filter.as_str());
        r.append(", ");
        let n = u64_to_decimal(s.lines_captured);
        r.append(n.as_str());
        r.append(" lines, since [");
        match &s.started_at {
            Some(t) => r.append(t.as_str()),
            None => r.append("?"),
        }
        r.append("])");
        r
    } else {
        let mut r = owned(DIM);
        r.append("Logcat: stopped");
        r.append(RESET);
        r.append(" (filter: ");
        r.append(s.filter.as_str());
        r.append(")");
        r
    }
}

/// A line in brief format keeps its priority letter: whatever follows
/// `V/`, `D/`, `I/`, `W/`, `E/` or `F/`, the line's priority is that letter.
pub proof fn law_priority_letter_is_kept(p: char, t: Seq<char>)
    requires
        p == 'V' || p == 'D' || p == 'I' || p == 'W' || p == 'E' || p == 'F',
    ensures
        line_priority(seq![p, '/'] + t) == p,
{
    let line = seq![p, '/'] + t;
    assert(line[0] == p && line[1] == '/');
}

} // verus!
