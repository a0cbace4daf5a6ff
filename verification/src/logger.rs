//! The decisions of the file logger: when to flush, when to open another
//! file, what its first line and name are, how the end of a file is read
//! back in chunks and which of its lines are kept.
use vstd::prelude::*;

use crate::text::{chars_of, string_of};

verus! {

/// Bytes written before the buffer is flushed.
pub const FLUSH_THRESHOLD: usize = 4096;

/// Bytes read per step when reading a file backwards.
pub const READ_CHUNK: u64 = 4096;

/// Whether the bytes written since the last flush call for a flush.
pub fn should_flush(pending: usize) -> (r: bool)
    ensures
        r == (pending >= FLUSH_THRESHOLD),
{
    pending >= FLUSH_THRESHOLD
}

/// The log file for a day or session key.
pub open spec fn log_file_name_spec(key: Seq<char>) -> Seq<char> {
    "proxy-"@ + key + ".txt"@
}

/// The name of the log file for a day (`YYYY-MM-DD`) or session key.
pub fn log_file_name(key: &str) -> (r: String)
    ensures
        r@ == log_file_name_spec(key@),
{
    crate::text::concat3("proxy-", key, ".txt")
}

/// Whether a mode names the one-file-per-day mode.
pub open spec fn is_day_mode(mode: Seq<char>) -> bool {
    mode == "day"@
}

/// The first line written to a log file.
pub open spec fn session_header_spec(mode: Seq<char>, started: Seq<char>) -> Seq<char> {
    "--- "@ + (if is_day_mode(mode) {
        "Day"@
    } else {
        "Session"@
    }) + " started at "@ + started + " ---"@
}

/// The line that opens a session in the log, with its start time.
pub fn session_header(mode: &str, started: &str) -> (r: String)
    ensures
        r@ == session_header_spec(mode@, started@),
{
    let kind = if crate::text::same_text(mode, "day") {
        "Day"
    } else {
        "Session"
    };
    let mut r = crate::text::concat3("--- ", kind, " started at ");
    r.append(started);
    r.append(" ---");
    r
}

/// What must happen to the log file before writing.
pub enum Rotation {
    /// Keep writing where we are.
    Keep,
    /// Flush, then open the file of the current day.
    OpenDay,
    /// Open the session's file again.
    ReopenSession,
    /// Open a new session file.
    NewSession,
}

/// In day mode, a file is opened when the day changed or none is open; in
/// session mode, when none is open: the session's file if it has one, else
/// a new one.
pub open spec fn rotation_spec(
    mode: Seq<char>,
    current_day: Option<Seq<char>>,
    today: Seq<char>,
    has_writer: bool,
    has_file: bool,
) -> Rotation {
    if is_day_mode(mode) {
        if current_day != Some(today) || !has_writer {
            Rotation::OpenDay
        } else {
            Rotation::Keep
        }
    } else if !has_writer {
        if has_file {
            Rotation::ReopenSession
        } else {
            Rotation::NewSession
        }
    } else {
        Rotation::Keep
    }
}

/// Decides whether the logger must open another file.
pub fn rotation(mode: &str, current_day: Option<&str>, today: &str, has_writer: bool, has_file: bool) -> (r:
    Rotation)
    ensures
        r == rotation_spec(
            mode@,
            match current_day {
                Some(d) => Some(d@),
                None => None,
            },
            today@,
            has_writer,
            has_file,
        ),
{
    if crate::text::same_text(mode, "day") {
        let same_day = match current_day {
            Some(d) => crate::text::same_text(d, today),
            None => false,
        };
        if !same_day || !has_writer {
            Rotation::OpenDay
        } else {
            Rotation::Keep
        }
    } else if !has_writer {
        if has_file {
            Rotation::ReopenSession
        } else {
            Rotation::NewSession
        }
    } else {
        Rotation::Keep
    }
}

/// How many times `b` occurs in `s`.
pub open spec fn byte_count(s: Seq<u8>, b: u8) -> nat
    decreases s.len(),
{
    if s.len() == 0 {
        0
    } else {
        byte_count(s.drop_last(), b) + if s.last() == b {
            1nat
        } else {
            0nat
        }
    }
}

/// `memchr::memchr_iter(needle, haystack).count()`: the iterator yields
/// each position of `needle` in `haystack` once, so the count is the
/// number of occurrences.
#[verifier::external_body]
fn count_byte(needle: u8, haystack: &[u8]) -> (r: usize)
    ensures
        r == byte_count(haystack@, needle),
{
    memchr::memchr_iter(needle, haystack).count()
}

/// Reading a file backwards until enough lines are seen: the position read
/// up to, and the line breaks seen so far.
pub struct TailScan {
    /// Bytes before this offset are still unread.
    pub pos: u64,
    /// Line breaks in what was read.
    pub newlines: usize,
    /// Lines wanted.
    pub wanted: usize,
}

/// The next chunk to read, as (offset, length): the 4096 bytes before the
/// position (fewer at the start of the file), while there is something
/// left and no more than `wanted` line breaks were seen.
pub open spec fn next_chunk_spec(s: TailScan) -> Option<(u64, usize)> {
    if s.pos > 0 && s.newlines <= s.wanted {
        let size = if s.pos < READ_CHUNK { s.pos } else { READ_CHUNK };
        Some(((s.pos - size) as u64, size as usize))
    } else {
        None
    }
}

impl TailScan {
    /// A scan of a file of `size` bytes for `wanted` lines.
    pub fn new(size: u64, wanted: usize) -> (s: TailScan)
        ensures
            s == (TailScan { pos: size, newlines: 0, wanted }),
    {
        TailScan { pos: size, newlines: 0, wanted }
    }

    /// The chunk to read next, if any.
    pub fn next_chunk(&self) -> (r: Option<(u64, usize)>)
        ensures
            r == next_chunk_spec(*self),
    {
        if self.pos > 0 && self.newlines <= self.wanted {
            let size: u64 = if self.pos < READ_CHUNK { self.pos } else { READ_CHUNK };
            Some((self.pos - size, size as usize))
        } else {
            None
        }
    }

    /// Takes in the chunk read at `start`: the position moves to it and its
    /// line breaks are counted.
    pub fn record_chunk(&mut self, start: u64, chunk: &[u8])
        requires
            old(self).newlines + chunk@.len() <= usize::MAX,
        ensures
            final(self).pos == start,
            final(self).newlines == old(self).newlines + byte_count(chunk@, 10u8),
            final(self).wanted == old(self).wanted,
    {
        proof {
            lemma_byte_count_bound(chunk@, 10u8);
        }
        let n = count_byte(10u8, chunk);
        self.pos = start;
        self.newlines = self.newlines + n;
    }
}

proof fn lemma_byte_count_bound(s: Seq<u8>, b: u8)
    ensures
        byte_count(s, b) <= s.len(),
    decreases s.len(),
{
    if s.len() > 0 {
        lemma_byte_count_bound(s.drop_last(), b);
    }
}

/// How many times `c` occurs in `s`.
pub open spec fn char_count(s: Seq<char>, c: char) -> nat
    decreases s.len(),
{
    if s.len() == 0 {
        0
    } else {
        char_count(s.drop_last(), c) + if s.last() == c {
            1nat
        } else {
            0nat
        }
    }
}

/// `s` after its first line break (empty when there is none).
pub open spec fn after_first_newline(s: Seq<char>) -> Seq<char>
    decreases s.len(),
{
    if s.len() == 0 {
        s
    } else if s[0] == '\n' {
        s.drop_first()
    } else {
        after_first_newline(s.drop_first())
    }
}

/// `s` after its first `k` lines.
pub open spec fn after_lines(s: Seq<char>, k: nat) -> Seq<char>
    decreases k,
{
    if k == 0 {
        s
    } else {
        after_lines(after_first_newline(s), (k - 1) as nat)
    }
}

/// What is kept of text read from the end of a log: with more line breaks
/// than `lines`, the lines before the last `lines` breaks are dropped.
pub open spec fn tail_text(s: Seq<char>, lines: nat) -> Seq<char> {
    let n = char_count(s, '\n');
    if n > lines {
        after_lines(s, (n - lines) as nat)
    } else {
        s
    }
}

proof fn lemma_after_lines_step(s: Seq<char>, k: nat)
    requires
        s.len() > 0,
        k > 0,
    ensures
        s[0] == '\n' ==> after_lines(s, k) == after_lines(s.drop_first(), (k - 1) as nat),
        s[0] != '\n' ==> after_lines(s, k) == after_lines(s.drop_first(), k),
{
}

proof fn lemma_after_lines_empty(s: Seq<char>, k: nat)
    requires
        s.len() == 0,
    ensures
        after_lines(s, k) == s,
    decreases k,
{
    if k > 0 {
        lemma_after_lines_empty(s, (k - 1) as nat);
    }
}

/// `t` is the end of `s`.
pub open spec fn is_suffix(t: Seq<char>, s: Seq<char>) -> bool {
    t.len() <= s.len() && s.subrange(s.len() - t.len(), s.len() as int) == t
}

proof fn lemma_count_front(s: Seq<char>, c: char)
    requires
        s.len() > 0,
    ensures
        char_count(s, c) == char_count(s.drop_first(), c) + if s[0] == c {
            1nat
        } else {
            0nat
        },
    decreases s.len(),
{
    if s.len() == 1 {
        assert(s.drop_first() =~= Seq::<char>::empty());
        assert(s.drop_last() =~= Seq::<char>::empty());
        assert(char_count(Seq::<char>::empty(), c) == 0);
    } else {
        lemma_count_front(s.drop_last(), c);
        assert(s.drop_last().drop_first() =~= s.drop_first().drop_last());
        assert(s.drop_first().last() == s.last());
    }
}

proof fn lemma_after_first(s: Seq<char>)
    requires
        char_count(s, '\n') > 0,
    ensures
        is_suffix(after_first_newline(s), s),
        char_count(after_first_newline(s), '\n') + 1 == char_count(s, '\n'),
    decreases s.len(),
{
    if s.len() == 0 {
    } else {
        lemma_count_front(s, '\n');
        if s[0] == '\n' {
            assert(s.subrange(1, s.len() as int) =~= s.drop_first());
        } else {
            lemma_after_first(s.drop_first());
            let t = after_first_newline(s.drop_first());
            let d = s.drop_first();
            assert(d.subrange(d.len() - t.len(), d.len() as int) == t);
            assert(s.subrange(s.len() - t.len(), s.len() as int) =~= d.subrange(
                d.len() - t.len(),
                d.len() as int,
            ));
        }
    }
}

proof fn lemma_after_lines(s: Seq<char>, k: nat)
    requires
        k <= char_count(s, '\n'),
    ensures
        is_suffix(after_lines(s, k), s),
        char_count(after_lines(s, k), '\n') == char_count(s, '\n') - k,
    decreases k,
{
    if k == 0 {
        assert(s.subrange(0, s.len() as int) =~= s);
    } else {
        lemma_after_first(s);
        let f = after_first_newline(s);
        lemma_after_lines(f, (k - 1) as nat);
        let t = after_lines(f, (k - 1) as nat);
        assert(f.subrange(f.len() - t.len(), f.len() as int) == t);
        assert(s.subrange(s.len() - f.len(), s.len() as int) == f);
        assert(s.subrange(s.len() - t.len(), s.len() as int) =~= f.subrange(
            f.len() - t.len(),
            f.len() as int,
        ));
    }
}

/// Reading back the end of a log keeps its last lines: the text kept is
/// the end of what was read and holds as many line breaks as were asked
/// for, or all of them when there are fewer.
pub proof fn law_tail_keeps_last_lines(s: Seq<char>, lines: nat)
    ensures
        is_suffix(tail_text(s, lines), s),
        char_count(tail_text(s, lines), '\n') == if char_count(s, '\n') > lines {
            lines
        } else {
            char_count(s, '\n')
        },
{
    let n = char_count(s, '\n');
    if n > lines {
        lemma_after_lines(s, (n - lines) as nat);
    } else {
        assert(s.subrange(0, s.len() as int) =~= s);
    }
}

/// Keeps the part of `text` that holds its last `lines` line breaks.
pub fn tail_lines(text: &str, lines: usize) -> (r: String)
    ensures
        r@ == tail_text(text@, lines as nat),
{
    let cs = chars_of(text);
    let mut n: usize = 0;
    let mut i: usize = 0;
    while i < cs.len()
        invariant
            i <= cs@.len(),
            n == char_count(cs@.subrange(0, i as int), '\n'),
            n <= i,
        decreases cs@.len() - i,
    {
        assert(cs@.subrange(0, i + 1).drop_last() =~= cs@.subrange(0, i as int));
        if cs[i] == '\n' {
            n = n + 1;
        }
        i = i + 1;
    }
    assert(cs@.subrange(0, cs@.len() as int) =~= cs@);
    if n <= lines {
        return string_of(cs.as_slice());
    }
    let skip = n - lines;
    let mut left: usize = skip;
    let mut k: usize = 0;
    assert(cs@.subrange(0, cs@.len() as int) =~= cs@);
    while k < cs.len() && left > 0
        invariant
            k <= cs@.len(),
            after_lines(cs@, skip as nat) == after_lines(cs@.subrange(k as int, cs@.len() as int), left as nat),
        decreases cs@.len() - k,
    {
        let ghost rest = cs@.subrange(k as int, cs@.len() as int);
        proof {
            lemma_after_lines_step(rest, left as nat);
            assert(rest.drop_first() =~= cs@.subrange(k + 1, cs@.len() as int));
        }
        if cs[k] == '\n' {
            left = left - 1;
        }
        k = k + 1;
    }
    let ghost rest = cs@.subrange(k as int, cs@.len() as int);
    proof {
        if left > 0 {
            lemma_after_lines_empty(rest, left as nat);
        }
    }
    let mut out: Vec<char> = Vec::new();
    let mut j = k;
    while j < cs.len()
        invariant
            k <= j <= cs@.len(),
            out@ == cs@.subrange(k as int, j as int),
        decreases cs@.len() - j,
    {
        out.push(cs[j]);
        j = j + 1;
        assert(out@ =~= cs@.subrange(k as int, j as int));
    }
    string_of(out.as_slice())
}

} // verus!
