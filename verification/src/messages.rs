//! The lines the proxy writes to its log for each exchange, and for the
//! log lines that clients post.
use vstd::prelude::*;

use crate::bodies::{body_text, format_body, indent_continuation, indent_lines};
use crate::text::{before_first, chars_of, decimal, string_of, u128_to_decimal, u64_to_decimal};

verus! {

/// Characters of a client log line that are kept.
pub const MAX_CLIENT_LOG_CHARS: usize = 500;

/// Response bodies above this size are not shown.
pub const MAX_LOGGED_RES_BYTES: usize = 10485760;

/// Response bodies above this size are refused.
pub const MAX_BUFFERED_RES_BYTES: usize = 67108864;

/// The line for a request that matches no route.
pub open spec fn no_route_spec(ts: Seq<char>, id: Seq<char>, method: Seq<char>, url: Seq<char>) -> Seq<char> {
    "\x1b[2m["@ + ts + "]\x1b[0m \x1b[1m"@ + id + "\x1b[0m ⚠  NO ROUTE: "@ + method + " "@ + url
}

/// Logs a request that matches no route.
pub fn no_route_line(ts: &str, id: &str, method: &str, url: &str) -> (r: String)
    ensures
        r@ == no_route_spec(ts@, id@, method@, url@),
{
    let mut r = String::new();
    r.append("\x1b[2m[");
    r.append(ts);
    r.append("]\x1b[0m \x1b[1m");
    r.append(id);
    r.append("\x1b[0m ⚠  NO ROUTE: ");
    r.append(method);
    r.append(" ");
    r.append(url);
    r
}

/// A route as listed in the answer to an unroutable request.
pub open spec fn route_summary_spec(prefix: Seq<char>, label: Seq<char>) -> Seq<char> {
    prefix + " → "@ + label
}

/// A route as `prefix → label`.
pub fn route_summary(prefix: &str, label: &str) -> (r: String)
    ensures
        r@ == route_summary_spec(prefix@, label@),
{
    crate::text::concat3(prefix, " → ", label)
}

/// The line for an incoming request, in the route's color.
pub open spec fn incoming_spec(ts: Seq<char>, id: Seq<char>, color: Seq<char>, method: Seq<char>, url: Seq<char>) -> Seq<char> {
    "\x1b[2m["@ + ts + "]\x1b[0m \x1b[1m"@ + id + "\x1b[0m "@ + color + method + " "@ + url + "\x1b[0m"@
}

/// Logs an incoming request.
pub fn incoming_line(ts: &str, id: &str, color: &str, method: &str, url: &str) -> (r: String)
    ensures
        r@ == incoming_spec(ts@, id@, color@, method@, url@),
{
    let mut r = String::new();
    r.append("\x1b[2m[");
    r.append(ts);
    r.append("]\x1b[0m \x1b[1m");
    r.append(id);
    r.append("\x1b[0m ");
    r.append(color);
    r.append(method);
    r.append(" ");
    r.append(url);
    r.append("\x1b[0m");
    r
}

/// The lines logged for a forwarded request: its id and time, method and
/// URL, the upstream URL, and, when it has a body, a heading with the
/// media type and the body indented.
pub open spec fn request_lines_spec(
    ts: Seq<char>,
    id: Seq<char>,
    method: Seq<char>,
    url: Seq<char>,
    target: Seq<char>,
    content_type: Seq<char>,
    body: Seq<u8>,
    color: Seq<char>,
) -> Seq<Seq<char>> {
    let head = seq![
        "\x1b[2m["@ + ts + "]\x1b[0m \x1b[1m"@ + id + "\x1b[0m"@,
        "  "@ + color + method + "\x1b[0m "@ + url,
        "\x1b[2m  → "@ + target + "\x1b[0m"@,
    ];
    if body.len() == 0 {
        head
    } else {
        head + seq![
            "\x1b[2m  "@ + "Req"@ + " Body ("@ + before_first(content_type, ';') + "):\x1b[0m"@,
            "  "@ + indent_lines(body_text(body, content_type)),
        ]
    }
}

/// The body heading and the indented body.
fn body_lines(kind: &str, content_type: &str, body: &[u8]) -> (r: (String, String))
    ensures
        r.0@ == "\x1b[2m  "@ + kind@ + " Body ("@ + before_first(content_type@, ';') + "):\x1b[0m"@,
        r.1@ == "  "@ + indent_lines(body_text(body@, content_type@)),
{
    let cs = chars_of(content_type);
    let media = crate::text::chars_before(cs.as_slice(), ';');
    let media_text = string_of(media.as_slice());
    let mut heading = String::new();
    heading.append("\x1b[2m  ");
    heading.append(kind);
    heading.append(" Body (");
    heading.append(media_text.as_str());
    heading.append("):\x1b[0m");
    let formatted = format_body(body, content_type);
    let indented = indent_continuation(formatted.as_str());
    let mut shown = String::new();
    shown.append("  ");
    shown.append(indented.as_str());
    (heading, shown)
}

/// The log lines for a forwarded request.
pub fn request_lines(
    ts: &str,
    id: &str,
    method: &str,
    url: &str,
    target: &str,
    content_type: &str,
    body: &[u8],
    color: &str,
) -> (r: Vec<String>)
    ensures
        crate::text::texts(r@) == request_lines_spec(
            ts@,
            id@,
            method@,
            url@,
            target@,
            content_type@,
            body@,
            color@,
        ),
{
    let mut first = String::new();
    first.append("\x1b[2m[");
    first.append(ts);
    first.append("]\x1b[0m \x1b[1m");
    first.append(id);
    first.append("\x1b[0m");
    let mut second = String::new();
    second.append("  ");
    second.append(color);
    second.append(method);
    second.append("\x1b[0m ");
    second.append(url);
    let third = crate::text::concat3("\x1b[2m  → ", target, "\x1b[0m");
    let mut r: Vec<String> = Vec::new();
    r.push(first);
    r.push(second);
    r.push(third);
    if body.len() > 0 {
        let (heading, shown) = body_lines("Req", content_type, body);
        r.push(heading);
        r.push(shown);
    }
    assert(crate::text::texts(r@) =~= request_lines_spec(
        ts@,
        id@,
        method@,
        url@,
        target@,
        content_type@,
        body@,
        color@,
    ));
    r
}

/// The lines logged for a response: status in its color, time taken and a
/// size note (given by the caller; empty unless the body is too large to
/// show), then the body when it has one of showable size, then an empty
/// line.
pub open spec fn response_lines_spec(
    status: u16,
    body: Seq<u8>,
    content_type: Seq<char>,
    duration_ms: u128,
    color: Seq<char>,
    size_note: Seq<char>,
) -> Seq<Seq<char>> {
    let head = seq![
        "  \x1b[1mResponse:\x1b[0m "@ + color + decimal(status as nat) + "\x1b[0m \x1b[2m"@ + decimal(
            duration_ms as nat,
        ) + "ms\x1b[0m"@ + size_note,
    ];
    let shown = if body.len() > 0 && body.len() <= MAX_LOGGED_RES_BYTES {
        head + seq![
            "\x1b[2m  "@ + "Res"@ + " Body ("@ + before_first(content_type, ';') + "):\x1b[0m"@,
            "  "@ + indent_lines(body_text(body, content_type)),
        ]
    } else {
        head
    };
    shown.push(seq![])
}

/// Whether a response body is too large to show.
pub fn response_too_large(len: usize) -> (r: bool)
    ensures
        r == (len > MAX_LOGGED_RES_BYTES),
{
    len > MAX_LOGGED_RES_BYTES
}

/// The log lines for a response.
pub fn response_lines(
    status: u16,
    body: &[u8],
    content_type: &str,
    duration_ms: u128,
    color: &str,
    size_note: &str,
) -> (r: Vec<String>)
    ensures
        crate::text::texts(r@) == response_lines_spec(
            status,
            body@,
            content_type@,
            duration_ms,
            color@,
            size_note@,
        ),
{
    let mut first = String::new();
    first.append("  \x1b[1mResponse:\x1b[0m ");
    first.append(color);
    let st = u64_to_decimal(status as u64);
    first.append(st.as_str());
    first.append("\x1b[0m \x1b[2m");
    let d = u128_to_decimal(duration_ms);
    first.append(d.as_str());
    first.append("ms\x1b[0m");
    first.append(size_note);
    let mut r: Vec<String> = Vec::new();
    r.push(first);
    if body.len() > 0 && body.len() <= MAX_LOGGED_RES_BYTES {
        let (heading, shown) = body_lines("Res", content_type, body);
        r.push(heading);
        r.push(shown);
    }
    r.push(String::new());
    assert(crate::text::texts(r@) =~= response_lines_spec(
        status,
        body@,
        content_type@,
        duration_ms,
        color@,
        size_note@,
    ));
    r
}

/// The line for a failed exchange.
pub open spec fn failure_spec(error: Seq<char>, duration_ms: u128) -> Seq<char> {
    "  \x1b[31mERROR:\x1b[0m "@ + error + " \x1b[2m"@ + decimal(duration_ms as nat) + "ms\x1b[0m\n"@
}

/// Logs a failed exchange.
pub fn failure_line(error: &str, duration_ms: u128) -> (r: String)
    ensures
        r@ == failure_spec(error@, duration_ms),
{
    let mut r = String::new();
    r.append("  \x1b[31mERROR:\x1b[0m ");
    r.append(error);
    r.append(" \x1b[2m");
    let d = u128_to_decimal(duration_ms);
    r.append(d.as_str());
    r.append("ms\x1b[0m\n");
    r
}

/// The line for an exchange that timed out.
pub open spec fn timeout_spec(duration_ms: u128) -> Seq<char> {
    "  \x1b[31mTIMEOUT\x1b[0m \x1b[2m"@ + decimal(duration_ms as nat) + "ms\x1b[0m\n"@
}

/// Logs an exchange that timed out.
pub fn timeout_line(duration_ms: u128) -> (r: String)
    ensures
        r@ == timeout_spec(duration_ms),
{
    let d = u128_to_decimal(duration_ms);
    crate::text::concat3("  \x1b[31mTIMEOUT\x1b[0m \x1b[2m", d.as_str(), "ms\x1b[0m\n")
}

/// A line posted by a client, cut to its first 500 characters.
pub open spec fn client_log_spec(ts: Seq<char>, raw: Seq<char>) -> Seq<char> {
    let kept = if raw.len() > MAX_CLIENT_LOG_CHARS {
        raw.subrange(0, MAX_CLIENT_LOG_CHARS as int)
    } else {
        raw
    };
    "\x1b[2m["@ + ts + "]\x1b[0m \x1b[36mLOG\x1b[0m "@ + kept
}

/// Logs a line posted by a client.
pub fn client_log_line(ts: &str, raw: &str) -> (r: String)
    ensures
        r@ == client_log_spec(ts@, raw@),
{
    let cs = chars_of(raw);
    let n = if cs.len() > MAX_CLIENT_LOG_CHARS { MAX_CLIENT_LOG_CHARS } else { cs.len() };
    let mut kept: Vec<char> = Vec::new();
    let mut i: usize = 0;
    while i < n
        invariant
            i <= n,
            n <= cs@.len(),
            kept@ == cs@.subrange(0, i as int),
        decreases n - i,
    {
        kept.push(cs[i]);
        i = i + 1;
        assert(kept@ =~= cs@.subrange(0, i as int));
    }
    assert(cs@.subrange(0, cs@.len() as int) =~= cs@);
    let k = string_of(kept.as_slice());
    let mut r = crate::text::concat3("\x1b[2m[", ts, "]\x1b[0m \x1b[36mLOG\x1b[0m ");
    r.append(k.as_str());
    r
}

/// Whether a chunk would take a response body past the buffer cap.
pub fn exceeds_cap(buffered: usize, chunk: usize, cap: usize) -> (r: bool)
    ensures
        r == (buffered + chunk > cap),
{
    if buffered > cap {
        true
    } else {
        chunk > cap - buffered
    }
}

/// The error for a response body past the cap, in whole megabytes.
pub open spec fn cap_error_spec(cap: nat) -> Seq<char> {
    "response body exceeded "@ + decimal(cap / 1024 / 1024) + "MB buffer cap"@
}

/// The error for a response body past the cap.
pub fn cap_error(cap: usize) -> (r: String)
    ensures
        r@ == cap_error_spec(cap as nat),
{
    let mb = u64_to_decimal((cap / 1024 / 1024) as u64);
    crate::text::concat3("response body exceeded ", mb.as_str(), "MB buffer cap")
}

} // verus!
