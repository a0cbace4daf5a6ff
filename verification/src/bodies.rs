//! How request and response bodies are shown in the log: binary payloads
//! are summarised, JSON is pretty-printed, long text is cut, and the JSON
//! Web Tokens found in the text are decoded and shown after it.
use vstd::prelude::*;
use vstd::utf8::*;
use base64::Engine;

use crate::proxy::{binary_content_type, binary_looking, format_thousands, is_binary, looks_binary, thousands};
use crate::routes::lemma_encode_concat;
use crate::text::{chars_of, push_char, string_of, texts};

verus! {

/// Characters of a body kept in the log before it is cut.
pub const MAX_LOGGED_BODY_CHARS: usize = 1000;

/// Optional text as characters.
pub open spec fn opt_seq(o: Option<String>) -> Option<Seq<char>> {
    match o {
        Some(s) => Some(s@),
        None => None,
    }
}

/// What `String::from_utf8_lossy` makes of some bytes.
pub uninterp spec fn utf8_lossy(b: Seq<u8>) -> Seq<char>;

/// `String::from_utf8_lossy`: valid UTF-8 is decoded as it is; invalid
/// sequences become U+FFFD, by rules that are only named here.
#[verifier::external_body]
fn lossy_text(b: &[u8]) -> (r: String)
    ensures
        r@ == utf8_lossy(b@),
        valid_utf8(b@) ==> r@ == decode_utf8(b@),
{
    String::from_utf8_lossy(b).to_string()
}

/// The pretty form (`serde_json::to_string_pretty`) of the JSON value that
/// `serde_json::from_str` reads from a text, or nothing when it reads none.
pub uninterp spec fn json_pretty_text(s: Seq<char>) -> Option<Seq<char>>;

/// Parses a text as JSON with `serde_json::from_str` and prints the value
/// with `serde_json::to_string_pretty`; the result is only named here.
#[verifier::external_body]
fn pretty_json_text(s: &str) -> (r: Option<String>)
    ensures
        opt_seq(r) == json_pretty_text(s@),
{
    match serde_json::from_str::<serde_json::Value>(s) {
        Ok(v) => serde_json::to_string_pretty(&v).ok(),
        Err(_) => None,
    }
}

/// The pretty form (`serde_json::to_string_pretty`) of the JSON value that
/// `serde_json::from_slice` reads from bytes, or nothing when it reads none.
pub uninterp spec fn json_pretty_bytes(b: Seq<u8>) -> Option<Seq<char>>;

/// Parses bytes as JSON with `serde_json::from_slice` and prints the value
/// with `serde_json::to_string_pretty`; the result is only named here.
#[verifier::external_body]
fn pretty_json_bytes(b: &[u8]) -> (r: Option<String>)
    ensures
        opt_seq(r) == json_pretty_bytes(b@),
{
    match serde_json::from_slice::<serde_json::Value>(b) {
        Ok(v) => serde_json::to_string_pretty(&v).ok(),
        Err(_) => None,
    }
}

/// The bytes the standard base64 alphabet (with padding) decodes a text
/// to, by the `base64` crate's `STANDARD` engine, or nothing when it is not
/// valid base64.
pub uninterp spec fn base64_standard(s: Seq<char>) -> Option<Seq<u8>>;

/// Decodes standard base64 with `base64::engine::general_purpose::STANDARD`;
/// the result is only named here.
#[verifier::external_body]
fn base64_decode(s: &str) -> (r: Option<Vec<u8>>)
    ensures
        match r {
            Some(v) => base64_standard(s@) == Some(v@),
            None => base64_standard(s@) is None,
        },
{
    match base64::engine::general_purpose::STANDARD.decode(s) {
        Ok(v) => Some(v),
        Err(_) => None,
    }
}

/// What `regex::Regex::new(pattern)` then `find_iter(text)` give: the
/// matched texts in order, or `None` when the pattern does not compile.
pub uninterp spec fn regex_find_all(pattern: Seq<char>, text: Seq<char>) -> Option<Seq<Seq<char>>>;

/// Compiles `pattern` with `regex::Regex::new` and collects the texts of
/// `find_iter` over `text`; the matches are only named (`regex_find_all`).
#[verifier::external_body]
fn find_all(pattern: &str, text: &str) -> (r: Option<Vec<String>>)
    ensures
        match r {
            None => regex_find_all(pattern@, text@) is None,
            Some(v) => regex_find_all(pattern@, text@) == Some(texts(v@)),
        },
{
    match regex::Regex::new(pattern) {
        Ok(re) => Some(re.find_iter(text).map(|m| m.as_str().to_string()).collect()),
        Err(_) => None,
    }
}

/// The shape of a JSON Web Token: three dot-separated runs of at least ten
/// URL-safe base64 characters, on word boundaries.
pub open spec fn jwt_pattern() -> Seq<char> {
    "\\b[A-Za-z0-9_-]{10,}\\.[A-Za-z0-9_-]{10,}\\.[A-Za-z0-9_-]{10,}\\b"@
}

fn jwt_pattern_text() -> (r: &'static str)
    ensures
        r@ == jwt_pattern(),
{
    "\\b[A-Za-z0-9_-]{10,}\\.[A-Za-z0-9_-]{10,}\\.[A-Za-z0-9_-]{10,}\\b"
}

/// The texts shaped like JSON Web Tokens in a text, in order (none if the
/// pattern were refused).
pub open spec fn jwt_matches(s: Seq<char>) -> Seq<Seq<char>> {
    match regex_find_all(jwt_pattern(), s) {
        Some(m) => m,
        None => seq![],
    }
}

/// Finds the text runs shaped like JSON Web Tokens.
fn jwt_candidates(text: &str) -> (r: Vec<String>)
    ensures
        texts(r@) == jwt_matches(text@),
{
    match find_all(jwt_pattern_text(), text) {
        Some(v) => v,
        None => {
            let v: Vec<String> = Vec::new();
            assert(texts(v@) =~= Seq::<Seq<char>>::empty());
            v
        },
    }
}

/// The part of `s` after its first `sep`, if it has one.
pub open spec fn after_first(s: Seq<char>, sep: char) -> Option<Seq<char>>
    decreases s.len(),
{
    if s.len() == 0 {
        None
    } else if s[0] == sep {
        Some(s.drop_first())
    } else {
        after_first(s.drop_first(), sep)
    }
}

/// The second `.`-separated piece of a token (its payload), if any.
pub open spec fn payload_segment(token: Seq<char>) -> Option<Seq<char>> {
    match after_first(token, '.') {
        Some(rest) => Some(crate::text::before_first(rest, '.')),
        None => None,
    }
}

/// The URL-safe base64 characters `-` and `_` as `+` and `/`.
pub open spec fn standard_alphabet(s: Seq<char>) -> Seq<char> {
    s.map_values(|c: char| if c == '-' { '+' } else if c == '_' { '/' } else { c })
}

/// `=` signs that bring a length in bytes to a multiple of four.
pub open spec fn padding_needed(n: nat) -> nat {
    ((4 - n % 4) % 4) as nat
}

/// `s` padded with `=` to a multiple of four bytes.
pub open spec fn padded_base64(s: Seq<char>) -> Seq<char> {
    s + Seq::new(padding_needed(encode_utf8(s).len()), |i: int| '=')
}

/// The pretty JSON a token's payload decodes to, if it does.
pub open spec fn jwt_payload(token: Seq<char>) -> Option<Seq<char>> {
    match payload_segment(token) {
        Some(seg) => match base64_standard(padded_base64(standard_alphabet(seg))) {
            Some(bytes) => json_pretty_bytes(bytes),
            None => None,
        },
        None => None,
    }
}

/// The payload of a token in standard, padded base64, if it has one.
pub fn payload_base64(token: &str) -> (r: Option<String>)
    ensures
        opt_seq(r) == match payload_segment(token@) {
            Some(seg) => Some(padded_base64(standard_alphabet(seg))),
            None => None,
        },
{
    let cs = chars_of(token);
    let mut i: usize = 0;
    assert(cs@.subrange(0, cs@.len() as int) =~= cs@);
    while i < cs.len() && cs[i] != '.'
        invariant
            i <= cs@.len(),
            after_first(cs@, '.') == after_first(cs@.subrange(i as int, cs@.len() as int), '.'),
        decreases cs@.len() - i,
    {
        assert(cs@.subrange(i as int, cs@.len() as int).drop_first() =~= cs@.subrange(
            i + 1,
            cs@.len() as int,
        ));
        i = i + 1;
    }
    if i == cs.len() {
        assert(cs@.subrange(i as int, cs@.len() as int).len() == 0);
        return None;
    }
    assert(cs@.subrange(i as int, cs@.len() as int).drop_first() =~= cs@.subrange(
        i + 1,
        cs@.len() as int,
    ));
    let ghost rest = cs@.subrange(i + 1, cs@.len() as int);
    let mut j: usize = i + 1;
    let mut seg: Vec<char> = Vec::new();
    while j < cs.len() && cs[j] != '.'
        invariant
            i + 1 <= j <= cs@.len(),
            rest == cs@.subrange(i + 1, cs@.len() as int),
            seg@ == standard_alphabet(cs@.subrange(i + 1, j as int)),
            crate::text::before_first(rest, '.') == cs@.subrange(i + 1, j as int) + crate::text::before_first(
                cs@.subrange(j as int, cs@.len() as int),
                '.',
            ),
        decreases cs@.len() - j,
    {
        let c = cs[j];
        seg.push(if c == '-' { '+' } else if c == '_' { '/' } else { c });
        assert(cs@.subrange(j as int, cs@.len() as int).drop_first() =~= cs@.subrange(
            j + 1,
            cs@.len() as int,
        ));
        assert(cs@.subrange(i + 1, j + 1) =~= cs@.subrange(i + 1, j as int).push(c));
        assert(seg@ =~= standard_alphabet(cs@.subrange(i + 1, j + 1)));
        j = j + 1;
    }
    proof {
        let tail = cs@.subrange(j as int, cs@.len() as int);
        assert(crate::text::before_first(tail, '.') =~= Seq::<char>::empty());
        assert(crate::text::before_first(rest, '.') =~= cs@.subrange(i + 1, j as int));
    }
    let mut s = string_of(seg.as_slice());
    let ghost base = s@;
    let ghost n0 = encode_utf8(base).len();
    let mut nb: usize = s.as_str().as_bytes().len();
    let mut k: usize = 0;
    while nb % 4 != 0
        invariant
            k <= 3,
            s@ == base + Seq::new(k as nat, |t: int| '='),
            nb == encode_utf8(s@).len(),
            nb == n0 + k,
            n0 == encode_utf8(base).len(),
            k >= 1 ==> n0 % 4 != 0,
            k >= 2 ==> (n0 + 1) % 4 != 0,
            k >= 3 ==> (n0 + 2) % 4 != 0,
        decreases 3 - k,
    {
        proof {
            lemma_encode_concat(s@, seq!['=']);
            assert(s@.push('=') =~= s@ + seq!['=']);
            reveal_with_fuel(encode_utf8, 2);
            assert(encode_utf8(seq!['=']).len() == 1);
            if k == 3 {
                assert(false);
            }
        }
        push_char(&mut s, '=');
        k = k + 1;
        assert(s@ =~= base + Seq::new(k as nat, |t: int| '='));
        nb = s.as_str().as_bytes().len();
    }
    assert(k == padding_needed(n0));
    Some(s)
}

/// The pretty JSON in a token's payload, if it decodes to one.
pub fn decode_jwt_payload(token: &str) -> (r: Option<String>)
    ensures
        opt_seq(r) == jwt_payload(token@),
{
    let b64 = match payload_base64(token) {
        Some(b) => b,
        None => return None,
    };
    let bytes = match base64_decode(b64.as_str()) {
        Some(b) => b,
        None => return None,
    };
    pretty_json_bytes(bytes.as_slice())
}

/// `s` with every line break followed by two spaces.
pub open spec fn indent_lines(s: Seq<char>) -> Seq<char>
    decreases s.len(),
{
    if s.len() == 0 {
        seq![]
    } else {
        indent_lines(s.drop_last()) + if s.last() == '\n' {
            seq!['\n', ' ', ' ']
        } else {
            seq![s.last()]
        }
    }
}

/// Indents every line after the first by two spaces.
pub fn indent_continuation(s: &str) -> (r: String)
    ensures
        r@ == indent_lines(s@),
{
    let cs = chars_of(s);
    let mut r = String::new();
    let mut i: usize = 0;
    while i < cs.len()
        invariant
            i <= cs@.len(),
            r@ == indent_lines(cs@.subrange(0, i as int)),
        decreases cs@.len() - i,
    {
        let ghost before = r@;
        let c = cs[i];
        assert(cs@.subrange(0, i + 1).drop_last() =~= cs@.subrange(0, i as int));
        if c == '\n' {
            push_char(&mut r, '\n');
            push_char(&mut r, ' ');
            push_char(&mut r, ' ');
        } else {
            push_char(&mut r, c);
        }
        i = i + 1;
        assert(r@ =~= indent_lines(cs@.subrange(0, i as int)));
    }
    assert(cs@.subrange(0, cs@.len() as int) =~= cs@);
    r
}

/// The block shown for a decoded token: the first sixteen characters of
/// the token, then its payload indented by two spaces.
pub open spec fn jwt_block(token: Seq<char>, payload: Seq<char>) -> Seq<char> {
    let prefix = if token.len() > 16 { token.subrange(0, 16) } else { token };
    "  \x1b[2m[JWT "@ + prefix + "… decoded]\x1b[0m\n  "@ + indent_lines(payload)
}

/// The blocks of the tokens at positions below `n`, each token shown once
/// (at its first occurrence) and only when its payload decodes.
pub open spec fn jwt_blocks(tokens: Seq<Seq<char>>, n: int) -> Seq<Seq<char>>
    decreases n,
{
    if n <= 0 || n > tokens.len() {
        seq![]
    } else {
        let r = jwt_blocks(tokens, n - 1);
        let t = tokens[n - 1];
        if tokens.subrange(0, n - 1).contains(t) {
            r
        } else {
            match jwt_payload(t) {
                Some(p) => r.push(jwt_block(t, p)),
                None => r,
            }
        }
    }
}

/// Lines joined with line breaks.
pub open spec fn joined(ls: Seq<Seq<char>>) -> Seq<char>
    decreases ls.len(),
{
    if ls.len() == 0 {
        seq![]
    } else if ls.len() == 1 {
        ls[0]
    } else {
        joined(ls.drop_last()) + seq!['\n'] + ls.last()
    }
}

/// The decoded tokens of a text.
pub open spec fn jwt_annotations(text: Seq<char>) -> Seq<char> {
    let ts = jwt_matches(text);
    joined(jwt_blocks(ts, ts.len() as int))
}

fn seen_before(tokens: &Vec<String>, n: usize, t: &String) -> (r: bool)
    requires
        n <= tokens@.len(),
    ensures
        r == texts(tokens@).subrange(0, n as int).contains(t@),
{
    let ghost ts = texts(tokens@);
    let mut i: usize = 0;
    while i < n
        invariant
            i <= n,
            n <= tokens@.len(),
            ts == texts(tokens@),
            forall|j: int| 0 <= j < i ==> ts[j] != t@,
        decreases n - i,
    {
        if crate::text::same_text(tokens[i].as_str(), t.as_str()) {
            assert(ts.subrange(0, n as int)[i as int] == t@);
            return true;
        }
        i = i + 1;
    }
    assert(!ts.subrange(0, n as int).contains(t@)) by {
        if ts.subrange(0, n as int).contains(t@) {
            let j = choose|j: int| 0 <= j < n && ts.subrange(0, n as int)[j] == t@;
            assert(ts[j] == t@);
        }
    }
    false
}

fn block_for(token: &String, payload: &String) -> (r: String)
    ensures
        r@ == jwt_block(token@, payload@),
{
    let cs = chars_of(token.as_str());
    let prefix = if cs.len() > 16 {
        let mut p: Vec<char> = Vec::new();
        let mut i: usize = 0;
        while i < 16
            invariant
                i <= 16,
                cs@.len() > 16,
                p@ == cs@.subrange(0, i as int),
            decreases 16 - i,
        {
            p.push(cs[i]);
            i = i + 1;
            assert(p@ =~= cs@.subrange(0, i as int));
        }
        string_of(p.as_slice())
    } else {
        string_of(cs.as_slice())
    };
    let body = indent_continuation(payload.as_str());
    let mut r = crate::text::concat3("  \x1b[2m[JWT ", prefix.as_str(), "… decoded]\x1b[0m\n  ");
    r.append(body.as_str());
    r
}

/// The decoded tokens in a text, one block each, joined with line breaks.
pub fn annotate_jwts(text: &str) -> (r: String)
    ensures
        r@ == jwt_annotations(text@),
{
    let tokens = jwt_candidates(text);
    let ghost ts = texts(tokens@);
    let mut blocks: Vec<String> = Vec::new();
    let mut i: usize = 0;
    while i < tokens.len()
        invariant
            i <= tokens@.len(),
            ts == texts(tokens@),
            ts == jwt_matches(text@),
            texts(blocks@) == jwt_blocks(ts, i as int),
        decreases tokens@.len() - i,
    {
        let t = &tokens[i];
        assert(ts[i as int] == t@);
        if !seen_before(&tokens, i, t) {
            match decode_jwt_payload(t.as_str()) {
                Some(p) => {
                    let b = block_for(t, &p);
                    blocks.push(b);
                    assert(texts(blocks@) =~= jwt_blocks(ts, i as int).push(b@));
                },
                None => {},
            }
        }
        i = i + 1;
    }
    let mut r = String::new();
    let mut k: usize = 0;
    while k < blocks.len()
        invariant
            k <= blocks@.len(),
            k > 0 ==> r@ == joined(texts(blocks@).subrange(0, k as int)),
            k == 0 ==> r@ == Seq::<char>::empty(),
        decreases blocks@.len() - k,
    {
        let ghost before = r@;
        let ghost sub = texts(blocks@).subrange(0, k + 1);
        if k > 0 {
            proof {
                reveal_strlit("\n");
            }
            r.append("\n");
        }
        r.append(blocks[k].as_str());
        proof {
            assert(sub.drop_last() =~= texts(blocks@).subrange(0, k as int));
            assert(sub.last() == blocks@[k as int]@);
            if k == 0 {
                assert(sub.len() == 1);
                assert(r@ =~= sub[0]);
            } else {
                assert(r@ =~= before + seq!['\n'] + sub.last());
            }
        }
        k = k + 1;
    }
    assert(texts(blocks@).subrange(0, blocks@.len() as int) =~= texts(blocks@));
    if blocks.len() == 0 {
        assert(joined(texts(blocks@)) =~= Seq::<char>::empty());
    }
    r
}

/// The text of a body, cut to its first thousand characters (with `…`
/// after the cut), then the decoded tokens, if any, on the next line.
pub open spec fn shown_text(pretty: Seq<char>, jwt: Seq<char>) -> Seq<char> {
    let cut = if pretty.len() > MAX_LOGGED_BODY_CHARS {
        pretty.subrange(0, MAX_LOGGED_BODY_CHARS as int) + seq!['…']
    } else {
        pretty
    };
    if jwt.len() == 0 {
        cut
    } else {
        cut + seq!['\n'] + jwt
    }
}

/// Cuts a body's text and adds its decoded tokens.
pub fn finish_body_text(pretty: &str, jwt: &str) -> (r: String)
    ensures
        r@ == shown_text(pretty@, jwt@),
{
    let cs = chars_of(pretty);
    let mut out: Vec<char> = Vec::new();
    if cs.len() > MAX_LOGGED_BODY_CHARS {
        let mut i: usize = 0;
        while i < MAX_LOGGED_BODY_CHARS
            invariant
                i <= MAX_LOGGED_BODY_CHARS,
                cs@.len() > MAX_LOGGED_BODY_CHARS,
                out@ == cs@.subrange(0, i as int),
            decreases MAX_LOGGED_BODY_CHARS - i,
        {
            out.push(cs[i]);
            i = i + 1;
            assert(out@ =~= cs@.subrange(0, i as int));
        }
        out.push('…');
    } else {
        let mut i: usize = 0;
        while i < cs.len()
            invariant
                i <= cs@.len(),
                out@ == cs@.subrange(0, i as int),
            decreases cs@.len() - i,
        {
            out.push(cs[i]);
            i = i + 1;
            assert(out@ =~= cs@.subrange(0, i as int));
        }
        assert(cs@.subrange(0, cs@.len() as int) =~= cs@);
    }
    let jc = chars_of(jwt);
    if jc.len() > 0 {
        out.push('\n');
        let mut j: usize = 0;
        let ghost head = out@;
        while j < jc.len()
            invariant
                j <= jc@.len(),
                out@ == head + jc@.subrange(0, j as int),
            decreases jc@.len() - j,
        {
            out.push(jc[j]);
            j = j + 1;
            assert(out@ =~= head + jc@.subrange(0, j as int));
        }
        assert(jc@.subrange(0, jc@.len() as int) =~= jc@);
    }
    string_of(out.as_slice())
}

/// How a body appears in the log: nothing when empty; a size note for
/// binary data (by content type or by sniffing); else its text, pretty
/// when it is JSON, cut, and followed by its decoded tokens.
pub open spec fn body_text(buf: Seq<u8>, content_type: Seq<char>) -> Seq<char> {
    if buf.len() == 0 {
        seq![]
    } else if binary_content_type(content_type) || binary_looking(buf) {
        "  [binary "@ + thousands(buf.len()) + " bytes]"@
    } else {
        let text = utf8_lossy(buf);
        let pretty = match json_pretty_text(text) {
            Some(p) => p,
            None => text,
        };
        shown_text(pretty, jwt_annotations(text))
    }
}

/// Formats a request or response body for the log.
pub fn format_body(buf: &[u8], content_type: &str) -> (r: String)
    ensures
        r@ == body_text(buf@, content_type@),
{
    if buf.len() == 0 {
        return String::new();
    }
    if is_binary(content_type) || looks_binary(buf) {
        let n = format_thousands(buf.len());
        return crate::text::concat3("  [binary ", n.as_str(), " bytes]");
    }
    let full = lossy_text(buf);
    let pretty = match pretty_json_text(full.as_str()) {
        Some(p) => p,
        None => full.clone(),
    };
    let jwt = annotate_jwts(full.as_str());
    finish_body_text(pretty.as_str(), jwt.as_str())
}

proof fn lemma_first_block(ts: Seq<Seq<char>>, n: int, p: Seq<char>)
    requires
        1 <= n <= ts.len(),
        jwt_payload(ts[0]) == Some(p),
    ensures
        jwt_blocks(ts, n).len() >= 1,
        jwt_blocks(ts, n)[0] == jwt_block(ts[0], p),
    decreases n,
{
    if n == 1 {
        assert(ts.subrange(0, 0) =~= Seq::<Seq<char>>::empty());
        assert(jwt_blocks(ts, 0) =~= Seq::<Seq<char>>::empty());
    } else {
        lemma_first_block(ts, n - 1, p);
    }
}

proof fn lemma_joined_starts_with_first(ls: Seq<Seq<char>>)
    requires
        ls.len() >= 1,
    ensures
        joined(ls).len() >= ls[0].len(),
        joined(ls).subrange(0, ls[0].len() as int) == ls[0],
    decreases ls.len(),
{
    if ls.len() == 1 {
        assert(joined(ls).subrange(0, ls[0].len() as int) =~= ls[0]);
    } else {
        let d = ls.drop_last();
        lemma_joined_starts_with_first(d);
        assert(d[0] == ls[0]);
        let j = joined(ls);
        assert(j == joined(d) + seq!['\n'] + ls.last());
        assert(j.subrange(0, ls[0].len() as int) =~= joined(d).subrange(0, ls[0].len() as int));
    }
}

/// The first token found in a text, when its payload decodes, is shown:
/// its decoded block opens the text's decoded tokens.
pub proof fn law_first_decodable_token_is_shown(text: Seq<char>, p: Seq<char>)
    requires
        jwt_matches(text).len() > 0,
        jwt_payload(jwt_matches(text)[0]) == Some(p),
    ensures
        ({
            let b = jwt_block(jwt_matches(text)[0], p);
            let a = jwt_annotations(text);
            &&& b.len() > 0
            &&& a.len() >= b.len()
            &&& a.subrange(0, b.len() as int) == b
        }),
{
    let ts = jwt_matches(text);
    lemma_first_block(ts, ts.len() as int, p);
    lemma_joined_starts_with_first(jwt_blocks(ts, ts.len() as int));
    reveal_strlit("  \x1b[2m[JWT ");
    assert(jwt_block(ts[0], p).len() >= "  \x1b[2m[JWT "@.len());
}

/// A logged text body ends with the decoded tokens found in its text, on
/// a line of their own after the (possibly cut) pretty-printed text.
pub proof fn law_logged_body_ends_with_decoded_tokens(buf: Seq<u8>, content_type: Seq<char>)
    requires
        buf.len() > 0,
        !binary_content_type(content_type),
        !binary_looking(buf),
        jwt_annotations(utf8_lossy(buf)).len() > 0,
    ensures
        ({
            let a = jwt_annotations(utf8_lossy(buf));
            let b = body_text(buf, content_type);
            &&& b.len() > a.len()
            &&& b[b.len() - a.len() - 1] == '\n'
            &&& b.subrange(b.len() - a.len(), b.len() as int) == a
        }),
{
    let a = jwt_annotations(utf8_lossy(buf));
    let b = body_text(buf, content_type);
    let text = utf8_lossy(buf);
    let pretty = match json_pretty_text(text) {
        Some(p) => p,
        None => text,
    };
    let cut = if pretty.len() > MAX_LOGGED_BODY_CHARS {
        pretty.subrange(0, MAX_LOGGED_BODY_CHARS as int) + seq!['…']
    } else {
        pretty
    };
    assert(b == cut + seq!['\n'] + a);
    assert(b.subrange(b.len() - a.len(), b.len() as int) =~= a);
}

} // verus!
