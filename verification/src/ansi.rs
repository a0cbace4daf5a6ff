//! Turning a log line with color escapes into styled text for the
//! terminal, with no character left that could upset a terminal cell.
use vstd::prelude::*;
use vstd::string::StringSliceAdditionalSpecFns;
use vstd::utf8::*;
use ansi_to_tui::IntoText;
use ratatui::style::Style;

use crate::colors::{strip_ansi, strip_from};
use crate::tui::{sanitize_cells, sanitized, StyledLine, StyledSpan};

verus! {

#[verifier::external_type_specification]
#[verifier::external_body]
pub struct ExStyle(Style);

/// What `ansi_to_tui` parses a text into: for each line, the text and
/// style of each of its spans; nothing when it reports an error.
pub uninterp spec fn ansi_parsed(raw: Seq<char>) -> Option<Seq<Seq<(Seq<char>, Style)>>>;

/// Parses color escapes with `ansi_to_tui`'s `into_text`, keeping each
/// line's spans with their text and style. The parse is a function of the
/// text alone; its result is only named here.
#[verifier::external_body]
fn ansi_lines(raw: &str) -> (r: Option<Vec<StyledLine<Style>>>)
    ensures
        match r {
            Some(ls) => ansi_parsed(raw@) == Some(lines_parts(ls@)),
            None => ansi_parsed(raw@) is None,
        },
{
    match raw.into_text() {
        Ok(text) => Some(
            text.lines.into_iter().map(|l| StyledLine {
                spans: l.spans.into_iter().map(|s| StyledSpan { content: s.content.to_string(), style: s.style }).collect(),
            }).collect(),
        ),
        Err(_) => None,
    }
}

/// A line as (text, style) pairs, one per span.
pub open spec fn line_parts<S>(l: StyledLine<S>) -> Seq<(Seq<char>, S)> {
    l.spans@.map_values(|s: StyledSpan<S>| (s.content@, s.style))
}

/// `raw` without its escape sequences, as `strip_ansi` gives it.
pub open spec fn stripped(raw: Seq<char>) -> Seq<char> {
    decode_utf8(strip_from(encode_utf8(raw), 0, false))
}

/// A line's parts with each text sanitised and each style kept.
pub open spec fn sanitized_parts<S>(lp: Seq<(Seq<char>, S)>) -> Seq<(Seq<char>, S)> {
    lp.map_values(|p: (Seq<char>, S)| (sanitized(p.0), p.1))
}

/// The lines a raw log line is shown as: the parsed lines, each span's
/// text sanitised and its style kept (one empty line when nothing was
/// parsed); when parsing failed, the text without escapes, sanitised, in
/// the plain style.
pub open spec fn shown_log_lines<S>(parsed: Option<Seq<Seq<(Seq<char>, S)>>>, raw: Seq<char>, plain: S) -> Seq<
    Seq<(Seq<char>, S)>,
> {
    match parsed {
        Some(ps) => if ps.len() == 0 {
            seq![seq![]]
        } else {
            ps.map_values(|lp: Seq<(Seq<char>, S)>| sanitized_parts(lp))
        },
        None => seq![seq![(sanitized(stripped(raw)), plain)]],
    }
}

/// Optional lines as (text, style) parts.
pub open spec fn opt_parts<S>(o: Option<Vec<StyledLine<S>>>) -> Option<Seq<Seq<(Seq<char>, S)>>> {
    match o {
        Some(ls) => Some(lines_parts(ls@)),
        None => None,
    }
}

/// The lines as (text, style) pairs.
pub open spec fn lines_parts<S>(ls: Seq<StyledLine<S>>) -> Seq<Seq<(Seq<char>, S)>> {
    ls.map_values(|l: StyledLine<S>| line_parts(l))
}

fn sanitized_line<S: Copy>(l: &StyledLine<S>) -> (r: StyledLine<S>)
    ensures
        line_parts(r) == sanitized_parts(line_parts(*l)),
{
    let mut spans: Vec<StyledSpan<S>> = Vec::new();
    let mut i: usize = 0;
    while i < l.spans.len()
        invariant
            i <= l.spans@.len(),
            spans@.len() == i,
            forall|k: int|
                0 <= k < i ==> (#[trigger] spans@[k]).content@ == sanitized(l.spans@[k].content@)
                    && spans@[k].style == l.spans@[k].style,
        decreases l.spans@.len() - i,
    {
        let s = &l.spans[i];
        spans.push(StyledSpan { content: sanitize_cells(s.content.as_str()), style: s.style });
        i = i + 1;
    }
    let r = StyledLine { spans };
    assert(line_parts(r) =~= sanitized_parts(line_parts(*l)));
    r
}

/// The lines for a raw log line, from what the escape parser made of it
/// (see `shown_log_lines`).
pub fn lines_for_log<S: Copy>(parsed: Option<Vec<StyledLine<S>>>, raw: &str, plain: S) -> (r: Vec<StyledLine<S>>)
    ensures
        lines_parts(r@) == shown_log_lines(opt_parts(parsed), raw@, plain),
{
    match parsed {
        Some(ls) => {
            let mut r: Vec<StyledLine<S>> = Vec::new();
            if ls.len() == 0 {
                r.push(StyledLine { spans: Vec::new() });
                assert(lines_parts(r@) =~= seq![Seq::<(Seq<char>, S)>::empty()]) by {
                    assert(line_parts(r@[0]) =~= Seq::<(Seq<char>, S)>::empty());
                }
                return r;
            }
            let mut i: usize = 0;
            while i < ls.len()
                invariant
                    i <= ls@.len(),
                    r@.len() == i,
                    forall|k: int|
                        0 <= k < i ==> line_parts(#[trigger] r@[k]) == sanitized_parts(line_parts(ls@[k])),
                decreases ls@.len() - i,
            {
                let line = sanitized_line(&ls[i]);
                r.push(line);
                i = i + 1;
            }
            assert(lines_parts(r@) =~= lines_parts(ls@).map_values(
                |lp: Seq<(Seq<char>, S)>| sanitized_parts(lp),
            ));
            r
        },
        None => {
            let text = sanitize_cells(strip_ansi(raw).as_str());
            let mut spans: Vec<StyledSpan<S>> = Vec::new();
            spans.push(StyledSpan { content: text, style: plain });
            let mut r: Vec<StyledLine<S>> = Vec::new();
            r.push(StyledLine { spans });
            assert(lines_parts(r@) =~= seq![seq![(sanitized(stripped(raw@)), plain)]]) by {
                assert(line_parts(r@[0]) =~= seq![(sanitized(stripped(raw@)), plain)]);
            }
            r
        },
    }
}

/// The styled lines shown for a raw log line: its color escapes parsed
/// into styles, control characters turned into spaces (see
/// `shown_log_lines`).
pub fn parse_log_line(raw: &str, plain: Style) -> (r: Vec<StyledLine<Style>>)
    ensures
        lines_parts(r@) == shown_log_lines(ansi_parsed(raw@), raw@, plain),
{
    let parsed = ansi_lines(raw);
    lines_for_log(parsed, raw, plain)
}

} // verus!
