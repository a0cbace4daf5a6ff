//! Decisions of the HTTP proxy: which bodies are binary, how sizes are
//! written, which headers are passed on, where a request is forwarded.
use rand::Rng;
use vstd::prelude::*;

use crate::routes::{prefix_matches, Route};
use crate::state::Transfer;
use crate::text::{push_char, same_text, before_first, chars_before, chars_of, decimal, lower_ascii, lower_ascii_text, owned, starts_with_chars, u64_to_decimal};

verus! {

/// How many leading bytes of a body are inspected.
pub const SNIFF_SAMPLE_BYTES: usize = 1024;

/// A control byte that text logs do not normally contain: below 0x20 and
/// not tab, newline, carriage return or ESC.
pub open spec fn is_suspicious_control(b: u8) -> bool {
    b < 0x20 && b != 0x09 && b != 0x0a && b != 0x0d && b != 0x1b
}

/// How many of the first `n` bytes are suspicious control bytes.
pub open spec fn count_suspicious(s: Seq<u8>, n: int) -> nat
    decreases n,
{
    if n <= 0 || n > s.len() {
        0
    } else {
        count_suspicious(s, n - 1) + if is_suspicious_control(s[n - 1]) {
            1nat
        } else {
            0nat
        }
    }
}

/// The inspected part of a body.
pub open spec fn sniff_sample(buf: Seq<u8>) -> Seq<u8> {
    if buf.len() <= SNIFF_SAMPLE_BYTES {
        buf
    } else {
        buf.subrange(0, SNIFF_SAMPLE_BYTES as int)
    }
}

/// A body looks binary when its first 1024 bytes hold a NUL byte, or when
/// more than one in twenty of them are suspicious control bytes.
pub open spec fn binary_looking(buf: Seq<u8>) -> bool {
    let sample = sniff_sample(buf);
    sample.contains(0u8) || count_suspicious(sample, sample.len() as int) * 20 > sample.len()
}

/// Sniffs a body for binary content that arrived under a text content
/// type (a compressed payload, say), so that it is not logged raw.
pub fn looks_binary(buf: &[u8]) -> (r: bool)
    ensures
        r == binary_looking(buf@),
{
    let n = if buf.len() < SNIFF_SAMPLE_BYTES {
        buf.len()
    } else {
        SNIFF_SAMPLE_BYTES
    };
    let ghost sample = sniff_sample(buf@);
    assert(sample =~= buf@.subrange(0, n as int));
    let mut ctrl: usize = 0;
    let mut has_nul = false;
    let mut i: usize = 0;
    while i < n
        invariant
            n <= buf@.len(),
            n <= SNIFF_SAMPLE_BYTES,
            sample =~= buf@.subrange(0, n as int),
            i <= n,
            ctrl == count_suspicious(sample, i as int),
            ctrl <= i,
            has_nul == exists|j: int| 0 <= j < i && sample[j] == 0u8,
        decreases n - i,
    {
        let b = buf[i];
        assert(sample[i as int] == b);
        if b == 0 {
            has_nul = true;
        }
        if b < 0x20 && b != 0x09 && b != 0x0a && b != 0x0d && b != 0x1b {
            ctrl = ctrl + 1;
        }
        i = i + 1;
    }
    proof {
        if has_nul {
            let j = choose|j: int| 0 <= j < n && sample[j] == 0u8;
            assert(sample.contains(0u8));
        }
        if sample.contains(0u8) {
            let j = choose|j: int| 0 <= j < sample.len() && sample[j] == 0u8;
            assert(exists|j: int| 0 <= j < n && sample[j] == 0u8);
        }
    }
    has_nul || ctrl * 20 > n
}

/// The media type part of a content type: the text before the first `;`,
/// lowercased.
pub open spec fn media_type(content_type: Seq<char>) -> Seq<char> {
    lower_ascii_text(before_first(content_type, ';'))
}

/// Content types whose bodies are never logged as text.
pub open spec fn binary_type_prefixes() -> Seq<Seq<char>> {
    seq!["image/"@, "video/"@, "audio/"@, "application/octet-stream"@]
}

/// A content type names binary data: its media type starts with one of
/// the binary prefixes.
pub open spec fn binary_content_type(content_type: Seq<char>) -> bool {
    content_type.len() > 0 && exists|i: int|
        0 <= i < binary_type_prefixes().len() && (#[trigger] binary_type_prefixes()[i]).is_prefix_of(
            media_type(content_type),
        )
}

/// Whether a content type names binary data (images, video, audio, raw
/// octets); an empty content type does not.
pub fn is_binary(content_type: &str) -> (r: bool)
    ensures
        r == binary_content_type(content_type@),
{
    if content_type.is_empty() {
        return false;
    }
    let cs = chars_of(content_type);
    let head = chars_before(&cs, ';');
    let ct = lower_ascii(&head);
    let image = chars_of("image/");
    let video = chars_of("video/");
    let audio = chars_of("audio/");
    let octets = chars_of("application/octet-stream");
    let r = starts_with_chars(&ct, &image) || starts_with_chars(&ct, &video) || starts_with_chars(
        &ct,
        &audio,
    ) || starts_with_chars(&ct, &octets);
    proof {
        let ps = binary_type_prefixes();
        assert(ps[0] == image@ && ps[1] == video@ && ps[2] == audio@ && ps[3] == octets@);
        if !r {
            assert forall|i: int| 0 <= i < ps.len() implies !(#[trigger] ps[i]).is_prefix_of(
                media_type(content_type@),
            ) by {}
        }
    }
    r
}

/// Decimal digits of `n` grouped in threes with commas ("1,234,567").
pub open spec fn thousands(n: nat) -> Seq<char>
    decreases n,
{
    if n < 1000 {
        decimal(n)
    } else {
        thousands(n / 1000) + seq![','] + three_digits((n % 1000) as nat)
    }
}

/// Three-digit rendering with leading zeros, for `n < 1000`.
pub open spec fn three_digits(n: nat) -> Seq<char> {
    if n < 10 {
        seq!['0', '0'] + decimal(n)
    } else if n < 100 {
        seq!['0'] + decimal(n)
    } else {
        decimal(n)
    }
}

/// Writes a byte count with thousands separators.
pub fn format_thousands(n: usize) -> (r: String)
    ensures
        r@ == thousands(n as nat),
    decreases n,
{
    if n < 1000 {
        u64_to_decimal(n as u64)
    } else {
        let mut r = format_thousands(n / 1000);
        r.append(",");
        let low = (n % 1000) as u64;
        if low < 10 {
            r.append("00");
        } else if low < 100 {
            r.append("0");
        }
        let d = u64_to_decimal(low);
        r.append(d.as_str());
        proof {
            reveal_strlit(",");
            reveal_strlit("00");
            reveal_strlit("0");
        }
        assert(r@ =~= thousands(n as nat));
        r
    }
}

/// The characters request ids are made of.
pub open spec fn id_alphabet() -> Seq<char> {
    "abcdefghijklmnopqrstuvwxyz0123456789"@
}

/// A random index below `n`, from `rand::thread_rng().gen_range(0..n)`.
/// The value rests on chance; only its range is stated (an empty range
/// makes `gen_range` panic, hence `n > 0`).
#[verifier::external_body]
pub(crate) fn random_below(n: usize) -> (r: usize)
    requires
        n > 0,
    ensures
        r < n,
{
    rand::thread_rng().gen_range(0..n)
}

/// The request id spelled by six drawn indices into `id_alphabet()`.
pub fn id_from_draws(draws: &Vec<usize>) -> (r: String)
    requires
        draws@.len() == 6,
        forall|i: int| 0 <= i < 6 ==> #[trigger] draws@[i] < 36,
    ensures
        r@.len() == 6,
        forall|i: int| 0 <= i < 6 ==> r@[i] == id_alphabet()[#[trigger] draws@[i] as int],
{
    let alphabet = chars_of("abcdefghijklmnopqrstuvwxyz0123456789");
    proof {
        reveal_strlit("abcdefghijklmnopqrstuvwxyz0123456789");
    }
    let mut r = String::new();
    let mut k: usize = 0;
    while k < 6
        invariant
            k <= 6,
            draws@.len() == 6,
            forall|i: int| 0 <= i < 6 ==> #[trigger] draws@[i] < 36,
            alphabet@ == id_alphabet(),
            alphabet@.len() == 36,
            r@.len() == k,
            forall|i: int| 0 <= i < k ==> r@[i] == id_alphabet()[#[trigger] draws@[i] as int],
        decreases 6 - k,
    {
        let j = draws[k];
        assert(draws@[k as int] < 36);
        let c = alphabet[j];
        push_char(&mut r, c);
        k = k + 1;
    }
    r
}

/// A fresh request id: six characters drawn at random from `a`-`z` and
/// `0`-`9`.
pub fn req_id() -> (r: String)
    ensures
        r@.len() == 6,
        forall|i: int| 0 <= i < 6 ==> id_alphabet().contains(#[trigger] r@[i]),
{
    let mut draws: Vec<usize> = Vec::new();
    while draws.len() < 6
        invariant
            draws@.len() <= 6,
            forall|i: int| 0 <= i < draws@.len() ==> #[trigger] draws@[i] < 36,
        decreases 6 - draws@.len(),
    {
        draws.push(random_below(36));
    }
    let r = id_from_draws(&draws);
    assert forall|i: int| 0 <= i < 6 implies id_alphabet().contains(#[trigger] r@[i]) by {
        assert(draws@[i] < 36);
        assert(r@[i] == id_alphabet()[draws@[i] as int]);
        reveal_strlit("abcdefghijklmnopqrstuvwxyz0123456789");
    }
    r
}

/// How forwarding a request to its upstream went.
pub enum UpstreamOutcome {
    /// The upstream answered with this status and its body was read.
    Answered { status: u16 },
    /// The upstream answered, but reading its body failed with this error.
    BodyFailed { error: String },
    /// Sending the request failed; `timeout` when the time limit ran out.
    SendFailed { timeout: bool, error: String },
}

/// What the client is answered after forwarding, and the status the
/// transfer is recorded with.
pub struct UpstreamAnswer {
    /// The status the client gets.
    pub status: u16,
    /// The status the finished transfer is recorded with (0 when the
    /// upstream gave no usable answer).
    pub recorded: u16,
    /// `None`: the client gets the upstream's headers and body. `Some(e)`:
    /// the client gets the JSON body `{"error": e}`.
    pub error: Option<String>,
}

/// The answer to the client: the upstream's own status and body when it
/// answered; 502 with the error when its body could not be read or the
/// send failed; 504 with "Timeout (120s)" when the send timed out.
pub open spec fn upstream_answer_spec(o: UpstreamOutcome) -> (u16, u16, Option<Seq<char>>) {
    match o {
        UpstreamOutcome::Answered { status } => (status, status, None),
        UpstreamOutcome::BodyFailed { error } => (502, 0, Some(error@)),
        UpstreamOutcome::SendFailed { timeout, error } => if timeout {
            (504, 0, Some("Timeout (120s)"@))
        } else {
            (502, 0, Some(error@))
        },
    }
}

/// Decides the answer to the client after forwarding.
pub fn upstream_answer(o: UpstreamOutcome) -> (r: UpstreamAnswer)
    ensures
        (r.status, r.recorded, crate::ai::opt_text(r.error)) == upstream_answer_spec(o),
{
    match o {
        UpstreamOutcome::Answered { status } => UpstreamAnswer { status, recorded: status, error: None },
        UpstreamOutcome::BodyFailed { error } => UpstreamAnswer { status: 502, recorded: 0, error: Some(error) },
        UpstreamOutcome::SendFailed { timeout, error } => {
            if timeout {
                UpstreamAnswer { status: 504, recorded: 0, error: Some(owned("Timeout (120s)")) }
            } else {
                UpstreamAnswer { status: 502, recorded: 0, error: Some(error) }
            }
        },
    }
}

/// Who may use the AI endpoints. With a token configured, only requests
/// whose authorization header is `Bearer <token>` (401 otherwise). Without
/// one, only local peers: addresses starting with `127.` or `::1`, or
/// `localhost` (403 otherwise); a request whose peer is unknown passes.
pub open spec fn ai_access(
    auth: Option<Seq<char>>,
    token: Option<Seq<char>>,
    remote: Option<Seq<char>>,
) -> Result<(), u16> {
    match token {
        Some(expected) => {
            let a = match auth {
                Some(a) => a,
                None => seq![],
            };
            if "Bearer "@.is_prefix_of(a) && a.subrange(7, a.len() as int) == expected {
                Ok(())
            } else {
                Err(401)
            }
        },
        None => match remote {
            Some(addr) => if "127."@.is_prefix_of(addr) || "::1"@.is_prefix_of(addr) || addr
                == "localhost"@ {
                Ok(())
            } else {
                Err(403)
            },
            None => Ok(()),
        },
    }
}

/// Checks access to the AI endpoints; the error is the HTTP status.
pub fn check_ai_access(auth: Option<&str>, ai_api_token: &Option<String>, remote_addr: Option<&str>) -> (r:
    Result<(), u16>)
    ensures
        r == ai_access(
            match auth {
                Some(a) => Some(a@),
                None => None,
            },
            match ai_api_token {
                Some(t) => Some(t@),
                None => None,
            },
            match remote_addr {
                Some(a) => Some(a@),
                None => None,
            },
        ),
{
    proof {
        reveal_strlit("Bearer ");
    }
    match ai_api_token {
        Some(expected) => {
            let a = match auth {
                Some(a) => chars_of(a),
                None => Vec::new(),
            };
            let bearer = chars_of("Bearer ");
            if starts_with_chars(&a, &bearer) {
                let rest = crate::text::string_of(&a.as_slice()[7..a.len()]);
                assert(rest@ =~= a@.subrange(7, a@.len() as int));
                if rest == *expected {
                    return Ok(());
                }
            }
            Err(401)
        },
        None => match remote_addr {
            Some(addr) => {
                let cs = chars_of(addr);
                let p127 = chars_of("127.");
                let p6 = chars_of("::1");
                if starts_with_chars(&cs, &p127) || starts_with_chars(&cs, &p6) || same_text(
                    addr,
                    "localhost",
                ) {
                    Ok(())
                } else {
                    Err(403)
                }
            },
            None => Ok(()),
        },
    }
}

/// Request headers that are not passed upstream: hop-by-hop ones, the
/// length, and the accepted encodings (the proxy negotiates compression
/// itself so that bodies can be logged as text).
pub open spec fn dropped_request_header(name: Seq<char>) -> bool {
    let n = lower_ascii_text(name);
    n == "host"@ || n == "connection"@ || n == "keep-alive"@ || n == "transfer-encoding"@ || n
        == "content-length"@ || n == "accept-encoding"@
}

/// Response headers that are not passed back to the client.
pub open spec fn dropped_response_header(name: Seq<char>) -> bool {
    let n = lower_ascii_text(name);
    n == "transfer-encoding"@ || n == "content-length"@ || n == "connection"@
}

/// Whether a request header is passed upstream.
pub fn forwards_request_header(name: &str) -> (r: bool)
    ensures
        r == !dropped_request_header(name@),
{
    let cs = chars_of(name);
    let n = crate::text::string_of(&lower_ascii(&cs));
    let t = n.as_str();
    !(same_text(t, "host") || same_text(t, "connection") || same_text(t, "keep-alive") || same_text(
        t,
        "transfer-encoding",
    ) || same_text(t, "content-length") || same_text(t, "accept-encoding"))
}

/// Whether an upstream response header is passed back.
pub fn forwards_response_header(name: &str) -> (r: bool)
    ensures
        r == !dropped_response_header(name@),
{
    let cs = chars_of(name);
    let n = crate::text::string_of(&lower_ascii(&cs));
    let t = n.as_str();
    !(same_text(t, "transfer-encoding") || same_text(t, "content-length") || same_text(
        t,
        "connection",
    ))
}

/// Where a request is forwarded: the route's target, then the request
/// path after the route prefix (`/` when nothing is left), then the query
/// (empty, or starting with `?`).
pub open spec fn upstream(target: Seq<char>, prefix: Seq<char>, path: Seq<char>, query: Seq<char>) -> Seq<
    char,
> {
    let rest = path.subrange(prefix.len() as int, path.len() as int);
    target + (if rest.len() == 0 {
        seq!['/']
    } else {
        rest
    }) + query
}

/// The upstream URL of a request routed through a route with this prefix
/// and target.
pub fn upstream_url(target: &str, prefix: &str, path: &str, query: &str) -> (r: String)
    requires
        prefix_matches(prefix@, path@),
    ensures
        r@ == upstream(target@, prefix@, path@, query@),
{
    let p = chars_of(path);
    let n = chars_of(prefix).len();
    assert(prefix@.len() <= path@.len()) by {
        if path@ != prefix@ {
            assert(prefix@.push('/').len() <= path@.len());
        }
    }
    let mut r = owned(target);
    if n == p.len() {
        push_char(&mut r, '/');
        assert(path@.subrange(prefix@.len() as int, path@.len() as int) =~= Seq::<char>::empty());
    } else {
        let rest = crate::text::string_of(&p.as_slice()[n..p.len()]);
        r.append(rest.as_str());
    }
    r.append(query);
    r
}

/// One line per route: "  {prefix} → {target}".
pub open spec fn route_report(rs: Seq<Route>) -> Seq<char>
    decreases rs.len(),
{
    if rs.len() == 0 {
        seq![]
    } else {
        route_report(rs.drop_last()) + "  "@ + rs.last().prefix@ + " → "@ + rs.last().target@ + "\n"@
    }
}

/// "ON" or "OFF".
pub open spec fn on_off(b: bool) -> Seq<char> {
    if b {
        "ON"@
    } else {
        "OFF"@
    }
}

/// One line per filter entry: "  {ON|OFF} {label}".
pub open spec fn filter_report(fs: Seq<(String, bool)>) -> Seq<char>
    decreases fs.len(),
{
    if fs.len() == 0 {
        seq![]
    } else {
        filter_report(fs.drop_last()) + "  "@ + on_off(fs.last().1) + " "@ + fs.last().0@ + "\n"@
    }
}

/// One line per transfer: "  {method} {path} {status}", `???` while no
/// status is known.
pub open spec fn transfer_report(ts: Seq<Transfer>) -> Seq<char>
    decreases ts.len(),
{
    if ts.len() == 0 {
        seq![]
    } else {
        transfer_report(ts.drop_last()) + "  "@ + ts.last().method@ + " "@ + ts.last().path@ + " "@
            + match ts.last().status {
            Some(st) => decimal(st as nat),
            None => "???"@,
        } + "\n"@
    }
}

/// How many transfers the report lists.
pub const REPORT_TRANSFERS: usize = 20;

/// The diagnostic context handed to the AI: status, routes, filters,
/// monitoring with the 20 most recent transfers when it is on, and the
/// recent log lines.
pub open spec fn report_text(
    port: u16,
    uptime_secs: u64,
    total_requests: u64,
    routes: Seq<Route>,
    filters: Seq<(String, bool)>,
    monitoring: bool,
    transfers: Seq<Transfer>,
    recent_logs: Seq<char>,
) -> Seq<char> {
    "=== Proxy Status ===\n"@ + "Port: "@ + decimal(port as nat) + "\n"@ + "Uptime: "@ + decimal(
        uptime_secs as nat,
    ) + "s\n"@ + "Total Requests: "@ + decimal(total_requests as nat) + "\n"@
        + "=== Routes ===\n"@ + route_report(routes) + "=== Filters ===\n"@ + filter_report(filters)
        + "=== Monitoring: "@ + on_off(monitoring) + " ===\n"@ + (if monitoring {
        transfer_report(
            if transfers.len() <= REPORT_TRANSFERS {
                transfers
            } else {
                transfers.subrange(0, REPORT_TRANSFERS as int)
            },
        )
    } else {
        seq![]
    }) + "=== Recent Logs ===\n"@ + recent_logs + "\n"@
}

/// Builds the diagnostic report context.
pub fn build_report_context(
    port: u16,
    uptime_secs: u64,
    total_requests: u64,
    routes: &Vec<Route>,
    filters: &Vec<(String, bool)>,
    monitoring: bool,
    transfers: &Vec<Transfer>,
    recent_logs: &str,
) -> (r: String)
    ensures
        r@ == report_text(
            port,
            uptime_secs,
            total_requests,
            routes@,
            filters@,
            monitoring,
            transfers@,
            recent_logs@,
        ),
{
    let mut r = owned("=== Proxy Status ===\n");
    r.append("Port: ");
    let p = u64_to_decimal(port as u64);
    r.append(p.as_str());
    r.append("\n");
    r.append("Uptime: ");
    let u = u64_to_decimal(uptime_secs);
    r.append(u.as_str());
    r.append("s\n");
    r.append("Total Requests: ");
    let t = u64_to_decimal(total_requests);
    r.append(t.as_str());
    r.append("\n");
    r.append("=== Routes ===\n");
    let ghost head = r@;
    let mut i: usize = 0;
    while i < routes.len()
        invariant
            i <= routes@.len(),
            r@ == head + route_report(routes@.subrange(0, i as int)),
        decreases routes@.len() - i,
    {
        r.append("  ");
        r.append(routes[i].prefix.as_str());
        r.append(" → ");
        r.append(routes[i].target.as_str());
        r.append("\n");
        proof {
            let sub = routes@.subrange(0, i + 1);
            assert(sub.drop_last() =~= routes@.subrange(0, i as int));
        }
        i = i + 1;
    }
    assert(routes@.subrange(0, routes@.len() as int) =~= routes@);
    r.append("=== Filters ===\n");
    let ghost head2 = r@;
    let mut j: usize = 0;
    while j < filters.len()
        invariant
            j <= filters@.len(),
            r@ == head2 + filter_report(filters@.subrange(0, j as int)),
        decreases filters@.len() - j,
    {
        r.append("  ");
        if filters[j].1 {
            r.append("ON");
        } else {
            r.append("OFF");
        }
        r.append(" ");
        r.append(filters[j].0.as_str());
        r.append("\n");
        proof {
            let sub = filters@.subrange(0, j + 1);
            assert(sub.drop_last() =~= filters@.subrange(0, j as int));
        }
        j = j + 1;
    }
    assert(filters@.subrange(0, filters@.len() as int) =~= filters@);
    r.append("=== Monitoring: ");
    if monitoring {
        r.append("ON");
    } else {
        r.append("OFF");
    }
    r.append(" ===\n");
    let ghost head3 = r@;
    if monitoring {
        let n = if transfers.len() < REPORT_TRANSFERS {
            transfers.len()
        } else {
            REPORT_TRANSFERS
        };
        let mut k: usize = 0;
        while k < n
            invariant
                k <= n,
                n <= transfers@.len(),
                r@ == head3 + transfer_report(transfers@.subrange(0, k as int)),
            decreases n - k,
        {
            r.append("  ");
            r.append(transfers[k].method.as_str());
            r.append(" ");
            r.append(transfers[k].path.as_str());
            r.append(" ");
            match transfers[k].status {
                Some(st) => {
                    let d = u64_to_decimal(st as u64);
                    r.append(d.as_str());
                },
                None => r.append("???"),
            }
            r.append("\n");
            proof {
                let sub = transfers@.subrange(0, k + 1);
                assert(sub.drop_last() =~= transfers@.subrange(0, k as int));
            }
            k = k + 1;
        }
        assert(transfers@.subrange(0, n as int) =~= if transfers@.len() <= REPORT_TRANSFERS {
            transfers@
        } else {
            transfers@.subrange(0, REPORT_TRANSFERS as int)
        });
    }
    r.append("=== Recent Logs ===\n");
    r.append(recent_logs);
    r.append("\n");
    r
}

/// The upstream URL starts with the route's target and ends with the
/// request's query, whatever the path: a request for the route prefix
/// itself goes to the target followed by `/` and the query, and adding a
/// query to a request adds exactly that query to the end of its URL.
pub proof fn law_upstream_keeps_target_and_query(
    target: Seq<char>,
    prefix: Seq<char>,
    path: Seq<char>,
    query: Seq<char>,
)
    requires
        prefix_matches(prefix, path),
    ensures
        ({
            let u = upstream(target, prefix, path, query);
            &&& u.len() >= target.len() + 1 + query.len()
            &&& u.subrange(0, target.len() as int) == target
            &&& u.subrange(u.len() - query.len(), u.len() as int) == query
            &&& u == upstream(target, prefix, path, seq![]) + query
        }),
        upstream(target, prefix, prefix, query) == target + seq!['/'] + query,
{
    let u = upstream(target, prefix, path, query);
    let rest = path.subrange(prefix.len() as int, path.len() as int);
    assert(prefix.len() <= path.len()) by {
        if path != prefix {
            assert(prefix.push('/').len() <= path.len());
        }
    }
    let mid = if rest.len() == 0 { seq!['/'] } else { rest };
    assert(u == target + mid + query);
    assert(u.subrange(0, target.len() as int) =~= target);
    assert(u.subrange(u.len() - query.len(), u.len() as int) =~= query);
    assert(target + mid + seq![] =~= target + mid);
    assert(prefix.subrange(prefix.len() as int, prefix.len() as int) =~= Seq::<char>::empty());
}

/// With a token configured, a request passes exactly when its
/// authorization is `Bearer ` followed by the token, wherever it comes
/// from; without one, or with another, it gets 401. Without a token,
/// local peers pass.
pub proof fn law_ai_token_gate(token: Seq<char>, remote: Option<Seq<char>>, auth: Option<Seq<char>>, addr: Seq<char>)
    ensures
        ai_access(Some("Bearer "@ + token), Some(token), remote) == Ok::<(), u16>(()),
        ai_access(None, Some(token), remote) == Err::<(), u16>(401),
        auth != Some("Bearer "@ + token) ==> ai_access(auth, Some(token), remote) == Err::<(), u16>(401),
        ai_access(auth, None, Some("127."@ + addr)) == Ok::<(), u16>(()),
{
    reveal_strlit("Bearer ");
    reveal_strlit("127.");
    let b = "Bearer "@ + token;
    assert("Bearer "@.is_prefix_of(b)) by {
        assert(b.subrange(0, 7) =~= "Bearer "@);
    }
    assert(b.subrange(7, b.len() as int) =~= token);
    assert("127."@.is_prefix_of("127."@ + addr)) by {
        assert(("127."@ + addr).subrange(0, 4) =~= "127."@);
    }
    if auth is Some && ai_access(auth, Some(token), remote) is Ok {
        let a = auth->0;
        assert("Bearer "@.is_prefix_of(a));
        assert(a.subrange(0, 7) =~= "Bearer "@);
        assert(a =~= "Bearer "@ + a.subrange(7, a.len() as int));
    }
    if auth is None {
        assert(!"Bearer "@.is_prefix_of(seq![]));
    }
}

} // verus!
