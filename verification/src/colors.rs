//! ANSI color escapes: the palette, per-service colors, status colors,
//! and removal of escape sequences from log text.
use vstd::prelude::*;
use vstd::string::StringSliceAdditionalSpecFns;
use vstd::utf8::*;

use crate::routes::lemma_encode_concat;
use crate::text::{push_char, same_text};

verus! {

broadcast use vstd::utf8::group_utf8_lib;

/// Escape that resets all attributes.
pub const RESET: &'static str = "\x1b[0m";
/// Bold text.
pub const BOLD: &'static str = "\x1b[1m";
/// Dim text.
pub const DIM: &'static str = "\x1b[2m";
/// Red text.
pub const RED: &'static str = "\x1b[31m";
/// Green text.
pub const GREEN: &'static str = "\x1b[32m";
/// Yellow text.
pub const YELLOW: &'static str = "\x1b[33m";
/// Cyan text.
pub const CYAN: &'static str = "\x1b[36m";

/// The escape a color name in the configuration stands for.
pub open spec fn color_escape(name: Seq<char>) -> Option<Seq<char>> {
    if name == "green"@ {
        Some("\x1b[32m"@)
    } else if name == "yellow"@ {
        Some("\x1b[33m"@)
    } else if name == "red"@ {
        Some("\x1b[31m"@)
    } else if name == "cyan"@ {
        Some("\x1b[36m"@)
    } else if name == "magenta"@ {
        Some("\x1b[35m"@)
    } else if name == "blue"@ {
        Some("\x1b[34m"@)
    } else if name == "white"@ {
        Some("\x1b[37m"@)
    } else if name == "dim"@ {
        Some("\x1b[2m"@)
    } else {
        None
    }
}

/// The escape for a configured color name; `None` for an unknown name.
pub fn ansi_code(name: &str) -> (r: Option<&'static str>)
    ensures
        match r {
            Some(code) => color_escape(name@) == Some(code@),
            None => color_escape(name@) is None,
        },
{
    if same_text(name, "green") {
        Some("\x1b[32m")
    } else if same_text(name, "yellow") {
        Some("\x1b[33m")
    } else if same_text(name, "red") {
        Some("\x1b[31m")
    } else if same_text(name, "cyan") {
        Some("\x1b[36m")
    } else if same_text(name, "magenta") {
        Some("\x1b[35m")
    } else if same_text(name, "blue") {
        Some("\x1b[34m")
    } else if same_text(name, "white") {
        Some("\x1b[37m")
    } else if same_text(name, "dim") {
        Some("\x1b[2m")
    } else {
        None
    }
}

/// The escape of a status code: red from 500, yellow from 400, green
/// from 200, yellow below.
pub open spec fn status_escape(code: u16) -> Seq<char> {
    if code >= 500 {
        RED@
    } else if code >= 400 {
        YELLOW@
    } else if code >= 200 {
        GREEN@
    } else {
        YELLOW@
    }
}

/// Color of an HTTP status code in the log.
pub fn status_color(code: u16) -> (r: &'static str)
    ensures
        r@ == status_escape(code),
{
    if code >= 500 {
        RED
    } else if code >= 400 {
        YELLOW
    } else if code >= 200 {
        GREEN
    } else {
        YELLOW
    }
}

/// The configured color name of the last of the first `n` pairs for
/// `label`.
pub open spec fn configured_color(pairs: Seq<(String, String)>, label: Seq<char>, n: int) -> Option<
    Seq<char>,
>
    decreases n,
{
    if n <= 0 || n > pairs.len() {
        None
    } else if pairs[n - 1].0@ == label {
        Some(pairs[n - 1].1@)
    } else {
        configured_color(pairs, label, n - 1)
    }
}

/// The escape a service label is shown in: its configured color, dim when
/// the name is unknown, no color (reset) when none is configured.
pub open spec fn service_escape(pairs: Seq<(String, String)>, label: Seq<char>) -> Seq<char> {
    match configured_color(pairs, label, pairs.len() as int) {
        Some(name) => match color_escape(name) {
            Some(code) => code,
            None => DIM@,
        },
        None => RESET@,
    }
}

/// Per-service colors from the configuration.
pub struct ServiceColors {
    labels: Vec<String>,
    codes: Vec<&'static str>,
    names: Ghost<Seq<(String, String)>>,
}

impl ServiceColors {
    /// The configured colors, as (label, color name) pairs.
    pub closed spec fn configured(&self) -> Seq<(String, String)> {
        self.names@
    }

    /// The labels, codes and configuration agree entry by entry.
    #[verifier::type_invariant]
    closed spec fn wf(&self) -> bool {
        &&& self.labels@.len() == self.names@.len()
        &&& self.codes@.len() == self.names@.len()
        &&& forall|i: int|
            #![trigger self.names@[i]]
            0 <= i < self.names@.len() ==> self.labels@[i]@ == self.names@[i].0@
                && self.codes@[i]@ == match color_escape(self.names@[i].1@) {
                Some(code) => code,
                None => DIM@,
            }
    }

    /// Colors for the configured (label, color name) pairs; a later pair
    /// for the same label takes precedence.
    pub fn new(user_colors: &Vec<(String, String)>) -> (c: ServiceColors)
        ensures
            c.configured() == user_colors@,
    {
        let mut labels: Vec<String> = Vec::new();
        let mut codes: Vec<&'static str> = Vec::new();
        let mut i: usize = 0;
        while i < user_colors.len()
            invariant
                i <= user_colors@.len(),
                labels@.len() == i,
                codes@.len() == i,
                forall|j: int|
                    #![trigger user_colors@[j]]
                    0 <= j < i ==> labels@[j]@ == user_colors@[j].0@ && codes@[j]@ == match color_escape(
                        user_colors@[j].1@,
                    ) {
                        Some(code) => code,
                        None => DIM@,
                    },
            decreases user_colors@.len() - i,
        {
            let code = match ansi_code(user_colors[i].1.as_str()) {
                Some(code) => code,
                None => DIM,
            };
            labels.push(user_colors[i].0.clone());
            codes.push(code);
            i = i + 1;
        }
        ServiceColors { labels, codes, names: Ghost(user_colors@) }
    }

    /// The escape for a service label.
    pub fn get(&self, label: &str) -> (r: &'static str)
        ensures
            r@ == service_escape(self.configured(), label@),
    {
        proof {
            use_type_invariant(self);
        }
        let ghost pairs = self.names@;
        let mut n: usize = self.labels.len();
        while n > 0
            invariant
                n <= pairs.len(),
                self.wf(),
                pairs == self.names@,
                configured_color(pairs, label@, pairs.len() as int) == configured_color(
                    pairs,
                    label@,
                    n as int,
                ),
            decreases n,
        {
            assert(self.labels@[n - 1]@ == pairs[n - 1].0@);
            if same_text(self.labels[n - 1].as_str(), label) {
                return self.codes[n - 1];
            }
            n = n - 1;
        }
        RESET
    }
}

/// The escape byte that starts every ANSI sequence.
pub open spec fn esc() -> u8 {
    0x1b
}

/// `u8::is_ascii_alphabetic`.
pub open spec fn is_ascii_alpha(b: u8) -> bool {
    (0x41 <= b && b <= 0x5a) || (0x61 <= b && b <= 0x7a)
}

/// The bytes that remain of `b[i..]` once escape sequences are removed.
/// Outside a sequence, ESC followed by `[` opens one (both dropped) and any
/// other byte is kept, a lone ESC included. Inside one, every byte is
/// dropped up to and including the first ASCII letter; a sequence left
/// open runs to the end of the text.
pub open spec fn strip_from(b: Seq<u8>, i: int, in_sequence: bool) -> Seq<u8>
    decreases b.len() - i,
{
    if i < 0 || i >= b.len() {
        seq![]
    } else if in_sequence {
        strip_from(b, i + 1, !is_ascii_alpha(b[i]))
    } else if b[i] == esc() && i + 1 < b.len() && b[i + 1] == 0x5b {
        strip_from(b, i + 2, true)
    } else {
        seq![b[i]] + strip_from(b, i + 1, false)
    }
}

/// First index of `needle` in `haystack`, found by `memchr::memchr`; its
/// documentation promises the index of the first occurrence, or `None`
/// when the byte does not occur.
#[verifier::external_body]
fn find_byte(needle: u8, haystack: &[u8]) -> (r: Option<usize>)
    ensures
        match r {
            Some(p) => p < haystack@.len() && haystack@[p as int] == needle && forall|k: int|
                0 <= k < p ==> haystack@[k] != needle,
            None => forall|k: int| 0 <= k < haystack@.len() ==> haystack@[k] != needle,
        },
{
    memchr::memchr(needle, haystack)
}

/// In valid UTF-8, the position right after an ASCII byte starts a
/// character (or is the end).
proof fn lemma_boundary_after_ascii(b: Seq<u8>, k: int)
    requires
        valid_utf8(b),
        0 <= k < b.len(),
        b[k] < 0x80,
    ensures
        is_char_boundary(b, k + 1),
{
    if k + 1 == b.len() {
        is_char_boundary_start_end_of_seq(b);
    } else {
        is_char_boundary_iff_not_is_continuation_byte(b, k);
        valid_utf8_split(b, k);
        let tail = b.subrange(k, b.len() as int);
        assert(tail[0] == b[k]);
        assert(valid_first_scalar(tail));
        let rest = pop_first_scalar(tail);
        assert(rest =~= b.subrange(k + 1, b.len() as int));
        assert(valid_utf8(rest));
        is_char_boundary_start_end_of_seq(rest);
        is_char_boundary_iff_not_is_continuation_byte(rest, 0);
        assert(rest[0] == b[k + 1]);
        is_char_boundary_iff_not_is_continuation_byte(b, k + 1);
    }
}

/// A run without ESC bytes is kept as it is.
proof fn lemma_plain_run(b: Seq<u8>, i: int, next: int)
    requires
        0 <= i <= next <= b.len(),
        forall|k: int| i <= k < next ==> b[k] != esc(),
    ensures
        strip_from(b, i, false) == b.subrange(i, next) + strip_from(b, next, false),
    decreases next - i,
{
    if i < next {
        lemma_plain_run(b, i + 1, next);
        assert(b.subrange(i, next) =~= seq![b[i]] + b.subrange(i + 1, next));
    } else {
        assert(b.subrange(i, next) =~= Seq::<u8>::empty());
    }
}

/// Removes ANSI escape sequences (ESC `[` ... first ASCII letter) from
/// `s`; a lone ESC is kept, and a sequence left open drops the rest.
pub fn strip_ansi(s: &str) -> (r: String)
    ensures
        encode_utf8(r@) == strip_from(s.spec_bytes(), 0, false),
        r@ == decode_utf8(strip_from(s.spec_bytes(), 0, false)),
{
    let bytes = s.as_bytes();
    let ghost b = bytes@;
    let len = bytes.len();
    let mut out = String::new();
    let mut i: usize = 0;
    proof {
        is_char_boundary_start_end_of_seq(b);
    }
    while i < len
        invariant
            b == bytes@,
            b == s.spec_bytes(),
            valid_utf8(b),
            len == b.len(),
            i <= len,
            is_char_boundary(b, i as int),
            strip_from(b, 0, false) == encode_utf8(out@) + strip_from(b, i as int, false),
        decreases len - i,
    {
        if bytes[i] == 0x1b {
            if i + 1 < len && bytes[i + 1] == 0x5b {
                let start = i;
                i = i + 2;
                while i < len && !((0x41 <= bytes[i] && bytes[i] <= 0x5a) || (0x61 <= bytes[i]
                    && bytes[i] <= 0x7a))
                    invariant
                        b == bytes@,
                        len == b.len(),
                        start + 2 <= i <= len,
                        strip_from(b, start as int, false) == strip_from(b, i as int, true),
                    decreases len - i,
                {
                    i = i + 1;
                }
                if i < len {
                    proof {
                        lemma_boundary_after_ascii(b, i as int);
                    }
                    i = i + 1;
                } else {
                    proof {
                        is_char_boundary_start_end_of_seq(b);
                    }
                }
                continue ;
            }
            let ghost before = out@;
            push_char(&mut out, '\x1b');
            proof {
                lemma_encode_concat(before, seq!['\x1b']);
                assert((0x1bu32 & 0x7fu32) as u8 == 0x1bu8) by (bit_vector);
                assert(('\x1b' as u32) == 0x1bu32);
                assert(encode_scalar('\x1b' as u32) =~= seq![0x1bu8]);
                assert(seq!['\x1b'].drop_first() =~= Seq::<char>::empty());
                assert(encode_utf8(Seq::<char>::empty()) =~= Seq::<u8>::empty());
                assert(seq!['\x1b'][0] == '\x1b');
                assert(encode_utf8(seq!['\x1b']) == encode_scalar('\x1b' as u32) + encode_utf8(
                    seq!['\x1b'].drop_first(),
                ));
                assert(encode_utf8(seq!['\x1b']) =~= seq![0x1bu8]);
                assert(out@ =~= before + seq!['\x1b']);
                lemma_boundary_after_ascii(b, i as int);
            }
            i = i + 1;
            continue ;
        }
        let rest = &bytes[i..len];
        let next = match find_byte(0x1b, rest) {
            Some(p) => i + p,
            None => len,
        };
        proof {
            assert forall|k: int| i <= k < next implies b[k] != esc() by {
                assert(rest@[k - i] == b[k]);
            }
            lemma_plain_run(b, i as int, next as int);
            if next < len {
                is_char_boundary_iff_not_is_continuation_byte(b, next as int);
            } else {
                is_char_boundary_start_end_of_seq(b);
            }
        }
        let (_, tail) = s.split_at(i);
        proof {
            valid_utf8_split(b, i as int);
            let t = b.subrange(i as int, len as int);
            assert(tail.spec_bytes() =~= t);
            if next < len {
                assert(t[next - i] == b[next as int]);
                is_char_boundary_iff_not_is_continuation_byte(t, next - i);
            } else {
                is_char_boundary_start_end_of_seq(t);
            }
        }
        let (chunk, _) = tail.split_at(next - i);
        let ghost before = out@;
        proof {
            assert(chunk.spec_bytes() =~= b.subrange(i as int, next as int));
        }
        out.append(chunk);
        proof {
            lemma_encode_concat(before, chunk@);
        }
        i = next;
    }
    proof {
        assert(encode_utf8(out@) + Seq::<u8>::empty() =~= encode_utf8(out@));
        encode_utf8_decode_utf8(out@);
    }
    out
}

} // verus!
