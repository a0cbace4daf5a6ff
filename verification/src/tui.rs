//! Layout logic of the terminal view: wrapping styled log lines into rows
//! of a given width and choosing which rows fill the log pane.
use vstd::prelude::*;
use unicode_width::UnicodeWidthChar;

use crate::text::{chars_of, decimal, push_char, two_digit_decimal, two_digits, u64_to_decimal};

verus! {

/// Display width in columns that `unicode_width` gives a character
/// (`None` for control characters).
pub uninterp spec fn char_width(c: char) -> Option<usize>;

/// Display width of a character, by `UnicodeWidthChar::width` of the
/// `unicode_width` crate. Its source gives one column to printable ASCII,
/// `None` to the C0 and C1 control characters, and never more than three
/// columns; the widths of other characters come from its Unicode tables
/// and are only named here.
#[verifier::external_body]
fn display_width(c: char) -> (w: Option<usize>)
    ensures
        w == char_width(c),
        w matches Some(n) ==> n <= 3,
        (' ' <= c && c < '\u{7f}') ==> w == Some(1usize),
        (c < ' ' || ('\u{7f}' <= c && c < '\u{a0}')) ==> w is None,
{
    UnicodeWidthChar::width(c)
}

/// Columns a character takes when wrapping; characters without a width
/// take none.
pub open spec fn cell_width(c: char) -> nat {
    match char_width(c) {
        Some(w) => w as nat,
        None => 0,
    }
}

/// A run of text in one style.
pub struct StyledSpan<S> {
    pub content: String,
    pub style: S,
}

/// A logical log line: styled runs of text.
pub struct StyledLine<S> {
    pub spans: Vec<StyledSpan<S>>,
}

/// The characters of a span, each with the span's style.
pub open spec fn span_cells<S>(sp: StyledSpan<S>) -> Seq<(char, S)> {
    sp.content@.map_values(|c: char| (c, sp.style))
}

/// The styled characters of a sequence of spans, in order.
pub open spec fn cells_of<S>(spans: Seq<StyledSpan<S>>) -> Seq<(char, S)>
    decreases spans.len(),
{
    if spans.len() == 0 {
        seq![]
    } else {
        cells_of(spans.drop_last()) + span_cells(spans.last())
    }
}

/// Rows and current column after placing `cells` left to right: a
/// character that has a width and would pass the right edge starts a new
/// row; characters without a width always join the current row.
pub open spec fn wrap_cells<S>(cells: Seq<(char, S)>, width: nat) -> (Seq<Seq<(char, S)>>, nat)
    decreases cells.len(),
{
    if cells.len() == 0 {
        (seq![seq![]], 0)
    } else {
        let (rows, col) = wrap_cells(cells.drop_last(), width);
        let c = cells.last();
        let w = cell_width(c.0);
        if w > 0 && col + w > width {
            (rows.push(seq![c]), w)
        } else {
            (rows.update(rows.len() - 1, rows.last().push(c)), col + w)
        }
    }
}

/// The rows a line wraps into at the given width (the whole line as one
/// row when the width is zero, so that nothing is lost).
pub open spec fn wrapped_rows<S>(line: StyledLine<S>, width: nat) -> Seq<Seq<(char, S)>> {
    if width == 0 {
        seq![cells_of(line.spans@)]
    } else {
        wrap_cells(cells_of(line.spans@), width).0
    }
}

proof fn lemma_wrap_nonempty<S>(cells: Seq<(char, S)>, width: nat)
    ensures
        wrap_cells(cells, width).0.len() >= 1,
    decreases cells.len(),
{
    if cells.len() > 0 {
        lemma_wrap_nonempty(cells.drop_last(), width);
    }
}

/// The rows put back together, in order.
pub open spec fn joined_rows<S>(rows: Seq<Seq<(char, S)>>) -> Seq<(char, S)>
    decreases rows.len(),
{
    if rows.len() == 0 {
        seq![]
    } else {
        joined_rows(rows.drop_last()) + rows.last()
    }
}

/// Columns a row takes.
pub open spec fn row_width<S>(row: Seq<(char, S)>) -> nat
    decreases row.len(),
{
    if row.len() == 0 {
        0
    } else {
        row_width(row.drop_last()) + cell_width(row.last().0)
    }
}

/// Characters of a row that take columns.
pub open spec fn wide_count<S>(row: Seq<(char, S)>) -> nat
    decreases row.len(),
{
    if row.len() == 0 {
        0
    } else {
        wide_count(row.drop_last()) + if cell_width(row.last().0) > 0 {
            1nat
        } else {
            0nat
        }
    }
}

/// A row fits the width, or holds a single character that takes columns
/// (one wider than the whole width gets a row of its own).
pub open spec fn row_fits<S>(row: Seq<(char, S)>, width: nat) -> bool {
    row_width(row) <= width || wide_count(row) == 1
}

proof fn lemma_wrap_joined<S>(cells: Seq<(char, S)>, width: nat)
    ensures
        joined_rows(wrap_cells(cells, width).0) == cells,
    decreases cells.len(),
{
    if cells.len() == 0 {
        assert(joined_rows(seq![Seq::<(char, S)>::empty()]) =~= Seq::<(char, S)>::empty()) by {
            assert(seq![Seq::<(char, S)>::empty()].drop_last() =~= Seq::<Seq<(char, S)>>::empty());
            assert(joined_rows(Seq::<Seq<(char, S)>>::empty()) =~= Seq::<(char, S)>::empty());
        }
    } else {
        lemma_wrap_joined(cells.drop_last(), width);
        lemma_wrap_nonempty(cells.drop_last(), width);
        let (rows, col) = wrap_cells(cells.drop_last(), width);
        let c = cells.last();
        let w = cell_width(c.0);
        if w > 0 && col + w > width {
            let r2 = rows.push(seq![c]);
            assert(r2.drop_last() =~= rows);
            assert(cells =~= cells.drop_last() + seq![c]);
        } else {
            let r2 = rows.update(rows.len() - 1, rows.last().push(c));
            assert(r2.drop_last() =~= rows.drop_last());
            assert(joined_rows(rows) == joined_rows(rows.drop_last()) + rows.last());
            assert(cells =~= cells.drop_last().push(c));
            assert((joined_rows(rows.drop_last()) + rows.last()).push(c) =~= joined_rows(rows.drop_last())
                + rows.last().push(c));
        }
    }
}

proof fn lemma_wrap_fit<S>(cells: Seq<(char, S)>, width: nat)
    ensures
        wrap_cells(cells, width).1 == row_width(wrap_cells(cells, width).0.last()),
        forall|k: int| 0 <= k < wrap_cells(cells, width).0.len() ==> row_fits(
            #[trigger] wrap_cells(cells, width).0[k],
            width,
        ),
    decreases cells.len(),
{
    if cells.len() == 0 {
        assert(row_width(Seq::<(char, S)>::empty()) == 0);
    } else {
        lemma_wrap_fit(cells.drop_last(), width);
        lemma_wrap_nonempty(cells.drop_last(), width);
        let (rows, col) = wrap_cells(cells.drop_last(), width);
        let c = cells.last();
        let w = cell_width(c.0);
        if w > 0 && col + w > width {
            let one = seq![c];
            assert(one.drop_last() =~= Seq::<(char, S)>::empty());
            assert(one.last() == c);
            assert(row_width(Seq::<(char, S)>::empty()) == 0);
            assert(wide_count(Seq::<(char, S)>::empty()) == 0);
            assert(row_width(one) == w);
            assert(wide_count(one) == 1);
            let r2 = rows.push(one);
            assert forall|k: int| 0 <= k < r2.len() implies row_fits(#[trigger] r2[k], width) by {
                if k < rows.len() {
                    assert(r2[k] == rows[k]);
                }
            }
        } else {
            let last2 = rows.last().push(c);
            assert(last2.drop_last() =~= rows.last());
            assert(row_width(last2) == col + w);
            let r2 = rows.update(rows.len() - 1, last2);
            assert(row_fits(rows.last(), width));
            assert(row_fits(last2, width));
            assert forall|k: int| 0 <= k < r2.len() implies row_fits(#[trigger] r2[k], width) by {
                if k < rows.len() - 1 {
                    assert(r2[k] == rows[k]);
                }
            }
        }
    }
}

/// Wrapping never truncates: at any width, the rows of a line put back
/// together give all its characters, with their styles, in order.
pub proof fn law_wrap_keeps_every_character<S>(line: StyledLine<S>, width: nat)
    ensures
        wrapped_rows(line, width).len() >= 1,
        joined_rows(wrapped_rows(line, width)) == cells_of(line.spans@),
{
    if width == 0 {
        let rows = seq![cells_of(line.spans@)];
        assert(rows.drop_last() =~= Seq::<Seq<(char, S)>>::empty());
        assert(joined_rows(Seq::<Seq<(char, S)>>::empty()) =~= Seq::<(char, S)>::empty());
        assert(joined_rows(rows) =~= cells_of(line.spans@));
    } else {
        lemma_wrap_joined(cells_of(line.spans@), width);
        lemma_wrap_nonempty(cells_of(line.spans@), width);
    }
}

/// Every wrapped row fits the width, except a row holding a single
/// character wider than the width.
pub proof fn law_wrap_rows_fit<S>(line: StyledLine<S>, width: nat)
    requires
        width > 0,
    ensures
        forall|k: int| 0 <= k < wrapped_rows(line, width).len() ==> row_fits(
            #[trigger] wrapped_rows(line, width)[k],
            width,
        ),
{
    lemma_wrap_fit(cells_of(line.spans@), width);
}

/// The styled characters of each line of a sequence.
pub open spec fn lines_cells<S>(ls: Seq<StyledLine<S>>) -> Seq<Seq<(char, S)>> {
    ls.map_values(|l: StyledLine<S>| cells_of(l.spans@))
}

/// Every span holds exactly one character.
pub open spec fn one_char_spans<S>(spans: Seq<StyledSpan<S>>) -> bool {
    forall|j: int| 0 <= j < spans.len() ==> (#[trigger] spans[j]).content@.len() == 1
}

/// A one-character span.
fn single<S: Copy>(c: char, style: S) -> (sp: StyledSpan<S>)
    ensures
        sp.content@ == seq![c],
        sp.style == style,
        span_cells(sp) == seq![(c, style)],
{
    let mut content = String::new();
    push_char(&mut content, c);
    let sp = StyledSpan { content, style };
    assert(span_cells(sp) =~= seq![(c, style)]);
    sp
}

/// The whole line as one row of one-character spans.
fn one_row<S: Copy>(line: &StyledLine<S>) -> (r: StyledLine<S>)
    ensures
        cells_of(r.spans@) == cells_of(line.spans@),
        one_char_spans(r.spans@),
{
    let mut cur: Vec<StyledSpan<S>> = Vec::new();
    let mut si: usize = 0;
    assert(line.spans@.subrange(0, 0) =~= Seq::<StyledSpan<S>>::empty());
    assert(cells_of(cur@) =~= Seq::<(char, S)>::empty());
    while si < line.spans.len()
        invariant
            si <= line.spans@.len(),
            cells_of(cur@) == cells_of(line.spans@.subrange(0, si as int)),
            one_char_spans(cur@),
        decreases line.spans@.len() - si,
    {
        let style = line.spans[si].style;
        let cs = chars_of(line.spans[si].content.as_str());
        let ghost base = cells_of(line.spans@.subrange(0, si as int));
        let ghost sc = span_cells(line.spans@[si as int]);
        let mut ci: usize = 0;
        assert(base + sc.subrange(0, 0) =~= base);
        while ci < cs.len()
            invariant
                ci <= cs@.len(),
                cs@ == line.spans@[si as int].content@,
                sc == span_cells(line.spans@[si as int]),
                style == line.spans@[si as int].style,
                cells_of(cur@) == base + sc.subrange(0, ci as int),
                one_char_spans(cur@),
            decreases cs@.len() - ci,
        {
            let ch = cs[ci];
            assert(sc[ci as int] == (ch, style));
            let ghost cur_before = cur@;
            let sp = single(ch, style);
            cur.push(sp);
            assert(cur@.drop_last() =~= cur_before);
            assert(cur@.last() == sp);
            assert(cells_of(cur@) == cells_of(cur_before) + seq![(ch, style)]);
            ci = ci + 1;
            assert(cells_of(cur@) =~= base + sc.subrange(0, ci as int));
        }
        proof {
            assert(sc.subrange(0, cs@.len() as int) =~= sc);
            let sub = line.spans@.subrange(0, si + 1);
            assert(sub.drop_last() =~= line.spans@.subrange(0, si as int));
            assert(sub.last() == line.spans@[si as int]);
        }
        si = si + 1;
    }
    assert(line.spans@.subrange(0, line.spans@.len() as int) =~= line.spans@);
    StyledLine { spans: cur }
}

/// Wraps a logical line into display rows of at most `width` columns,
/// one span per character with that character's style; never truncates
/// (at width zero the whole line is one row).
pub fn wrap_line<S: Copy>(line: &StyledLine<S>, width: usize) -> (rows: Vec<StyledLine<S>>)
    ensures
        lines_cells(rows@) == wrapped_rows(*line, width as nat),
        forall|k: int| 0 <= k < rows@.len() ==> one_char_spans((#[trigger] rows@[k]).spans@),
{
    if width == 0 {
        let row = one_row(line);
        let r = vec![row];
        assert(lines_cells(r@) =~= seq![cells_of(line.spans@)]);
        return r;
    }
    let ghost all = cells_of(line.spans@);
    let mut done: Vec<StyledLine<S>> = Vec::new();
    let mut cur: Vec<StyledSpan<S>> = Vec::new();
    let mut col: usize = 0;
    let mut si: usize = 0;
    assert(line.spans@.subrange(0, 0) =~= Seq::<StyledSpan<S>>::empty());
    assert(lines_cells(done@).push(cells_of(cur@)) =~= seq![Seq::<(char, S)>::empty()]);
    while si < line.spans.len()
        invariant
            width > 0,
            si <= line.spans@.len(),
            col <= width || col <= 3,
            wrap_cells(cells_of(line.spans@.subrange(0, si as int)), width as nat) == (
                lines_cells(done@).push(cells_of(cur@)),
                col as nat,
            ),
            forall|k: int| 0 <= k < done@.len() ==> one_char_spans((#[trigger] done@[k]).spans@),
            one_char_spans(cur@),
        decreases line.spans@.len() - si,
    {
        let style = line.spans[si].style;
        let cs = chars_of(line.spans[si].content.as_str());
        let ghost base = cells_of(line.spans@.subrange(0, si as int));
        let ghost sc = span_cells(line.spans@[si as int]);
        let mut ci: usize = 0;
        assert(base + sc.subrange(0, 0) =~= base);
        while ci < cs.len()
            invariant
                width > 0,
                ci <= cs@.len(),
                cs@ == line.spans@[si as int].content@,
                sc == span_cells(line.spans@[si as int]),
                style == line.spans@[si as int].style,
                col <= width || col <= 3,
                wrap_cells(base + sc.subrange(0, ci as int), width as nat) == (
                    lines_cells(done@).push(cells_of(cur@)),
                    col as nat,
                ),
                forall|k: int| 0 <= k < done@.len() ==> one_char_spans((#[trigger] done@[k]).spans@),
                one_char_spans(cur@),
            decreases cs@.len() - ci,
        {
            let ch = cs[ci];
            let w = match display_width(ch) {
                Some(w) => w,
                None => 0,
            };
            let ghost prefix = base + sc.subrange(0, ci as int);
            let ghost next = base + sc.subrange(0, ci + 1);
            assert(sc[ci as int] == (ch, style));
            assert(next =~= prefix.push((ch, style)));
            assert(next.drop_last() =~= prefix);
            let ghost before_rows = lines_cells(done@).push(cells_of(cur@));
            let ghost col0 = col as nat;
            assert(w as nat == cell_width(ch));
            assert(wrap_cells(prefix, width as nat) == (before_rows, col0));
            proof {
                lemma_wrap_nonempty(prefix, width as nat);
            }
            if w > 0 && (col > width || w > width - col) {
                let finished = StyledLine { spans: cur };
                done.push(finished);
                cur = Vec::new();
                col = 0;
                assert(lines_cells(done@) =~= before_rows);
            }
            let ghost cur_before = cur@;
            let sp = single(ch, style);
            cur.push(sp);
            assert(cur@.drop_last() =~= cur_before);
            assert(cur@.last() == sp);
            assert(cells_of(cur@) == cells_of(cur_before) + seq![(ch, style)]);
            assert(cells_of(cur_before) + seq![(ch, style)] =~= cells_of(cur_before).push((ch, style)));
            col = col + w;
            ci = ci + 1;
            proof {
                if w > 0 && col0 + w > width {
                    assert(cells_of(cur_before) =~= Seq::<(char, S)>::empty());
                    assert(lines_cells(done@).push(cells_of(cur@)) =~= before_rows.push(seq![(ch, style)]));
                } else {
                    assert(lines_cells(done@).push(cells_of(cur@)) =~= before_rows.update(
                        before_rows.len() - 1,
                        before_rows.last().push((ch, style)),
                    ));
                }
            }
            assert(lines_cells(done@).push(cells_of(cur@)) =~= wrap_cells(next, width as nat).0);
        }
        proof {
            assert(sc.subrange(0, cs@.len() as int) =~= sc);
            let sub = line.spans@.subrange(0, si + 1);
            assert(sub.drop_last() =~= line.spans@.subrange(0, si as int));
            assert(sub.last() == line.spans@[si as int]);
        }
        si = si + 1;
    }
    let ghost rows_before = lines_cells(done@).push(cells_of(cur@));
    done.push(StyledLine { spans: cur });
    assert(line.spans@.subrange(0, line.spans@.len() as int) =~= line.spans@);
    assert(lines_cells(done@) =~= rows_before);
    done
}

/// Display rows of the lines at `idxs`, in order, each paired with the
/// index of the line it comes from.
pub open spec fn tagged_rows<S>(lines: Seq<StyledLine<S>>, idxs: Seq<usize>, width: nat) -> Seq<
    (usize, Seq<(char, S)>),
>
    decreases idxs.len(),
{
    if idxs.len() == 0 {
        seq![]
    } else {
        let i = idxs.last();
        tagged_rows(lines, idxs.drop_last(), width) + wrapped_rows(lines[i as int], width).map_values(
            |r: Seq<(char, S)>| (i, r),
        )
    }
}

/// The rows of one line paired with its index.
pub open spec fn tag_rows<S>(i: usize, rows: Seq<Seq<(char, S)>>) -> Seq<(usize, Seq<(char, S)>)> {
    rows.map_values(|r: Seq<(char, S)>| (i, r))
}

/// Rows as (line index, styled characters).
pub open spec fn rows_view<S>(r: Seq<(usize, StyledLine<S>)>) -> Seq<(usize, Seq<(char, S)>)> {
    r.map_values(|p: (usize, StyledLine<S>)| (p.0, cells_of(p.1.spans@)))
}

/// The first `n` items (all of them when there are fewer).
pub open spec fn first_items<T>(s: Seq<T>, n: nat) -> Seq<T> {
    if s.len() <= n {
        s
    } else {
        s.subrange(0, n as int)
    }
}

/// The last `n` items (all of them when there are fewer).
pub open spec fn last_items<T>(s: Seq<T>, n: nat) -> Seq<T> {
    if s.len() <= n {
        s
    } else {
        s.subrange(s.len() - n, s.len() as int)
    }
}

/// The items of `s` from index `from` on.
pub open spec fn items_from<T>(s: Seq<T>, from: nat) -> Seq<T> {
    if from >= s.len() {
        seq![]
    } else {
        s.subrange(from as int, s.len() as int)
    }
}

/// Line indices `from`, `from + 1`, ..., `to - 1`.
pub open spec fn index_range(from: nat, to: nat) -> Seq<usize> {
    if from >= to {
        seq![]
    } else {
        Seq::new((to - from) as nat, |k: int| (from + k) as usize)
    }
}

/// Every row holds one-character spans.
pub open spec fn rows_one_char<S>(r: Seq<(usize, StyledLine<S>)>) -> bool {
    forall|k: int| 0 <= k < r.len() ==> one_char_spans((#[trigger] r[k]).1.spans@)
}

proof fn lemma_tagged_concat<S>(lines: Seq<StyledLine<S>>, a: Seq<usize>, b: Seq<usize>, width: nat)
    ensures
        tagged_rows(lines, a + b, width) == tagged_rows(lines, a, width) + tagged_rows(
            lines,
            b,
            width,
        ),
    decreases b.len(),
{
    if b.len() == 0 {
        assert(a + b =~= a);
        assert(tagged_rows(lines, a, width) + tagged_rows(lines, b, width) =~= tagged_rows(
            lines,
            a,
            width,
        ));
    } else {
        assert((a + b).drop_last() =~= a + b.drop_last());
        assert((a + b).last() == b.last());
        lemma_tagged_concat(lines, a, b.drop_last(), width);
        assert(tagged_rows(lines, a + b, width) =~= tagged_rows(lines, a, width) + tagged_rows(
            lines,
            b,
            width,
        ));
    }
}

/// A copy of a line.
fn copy_line<S: Copy>(l: &StyledLine<S>) -> (c: StyledLine<S>)
    ensures
        c.spans@ == l.spans@,
{
    let mut spans: Vec<StyledSpan<S>> = Vec::new();
    let mut i: usize = 0;
    while i < l.spans.len()
        invariant
            i <= l.spans@.len(),
            spans@ == l.spans@.subrange(0, i as int),
        decreases l.spans@.len() - i,
    {
        spans.push(StyledSpan { content: l.spans[i].content.clone(), style: l.spans[i].style });
        i = i + 1;
        assert(spans@ =~= l.spans@.subrange(0, i as int));
    }
    assert(l.spans@.subrange(0, l.spans@.len() as int) =~= l.spans@);
    StyledLine { spans }
}

/// The rows of one line, each paired with the line's index.
fn tagged_line<S: Copy>(lines: &Vec<StyledLine<S>>, i: usize, width: usize) -> (r: Vec<
    (usize, StyledLine<S>),
>)
    requires
        i < lines@.len(),
    ensures
        rows_view(r@) == tag_rows(i, wrapped_rows(lines@[i as int], width as nat)),
        rows_one_char(r@),
{
    let wrapped = wrap_line(&lines[i], width);
    let mut r: Vec<(usize, StyledLine<S>)> = Vec::new();
    let mut j: usize = 0;
    while j < wrapped.len()
        invariant
            j <= wrapped@.len(),
            lines_cells(wrapped@) == wrapped_rows(lines@[i as int], width as nat),
            forall|k: int| 0 <= k < wrapped@.len() ==> one_char_spans((#[trigger] wrapped@[k]).spans@),
            rows_view(r@) == tag_rows(i, lines_cells(wrapped@).subrange(0, j as int)),
            rows_one_char(r@),
        decreases wrapped@.len() - j,
    {
        let c = copy_line(&wrapped[j]);
        let ghost before = r@;
        r.push((i, c));
        assert(lines_cells(wrapped@)[j as int] == cells_of(wrapped@[j as int].spans@));
        assert(rows_view(r@) =~= rows_view(before).push((i, cells_of(c.spans@))));
        j = j + 1;
        assert(rows_view(r@) =~= tag_rows(i, lines_cells(wrapped@).subrange(0, j as int)));
    }
    assert(lines_cells(wrapped@).subrange(0, wrapped@.len() as int) =~= lines_cells(wrapped@));
    r
}

/// Wraps the lines listed in `match_indices` from position `start_match`
/// on, pairing each display row with its line index, until `viewport`
/// rows are filled or the list runs out.
pub fn build_filtered_rows<S: Copy>(
    lines: &Vec<StyledLine<S>>,
    match_indices: &Vec<usize>,
    start_match: usize,
    viewport: usize,
    width: usize,
) -> (rows: Vec<(usize, StyledLine<S>)>)
    requires
        forall|k: int| 0 <= k < match_indices@.len() ==> #[trigger] match_indices@[k] < lines@.len(),
    ensures
        rows_view(rows@) == first_items(
            tagged_rows(lines@, items_from(match_indices@, start_match as nat), width as nat),
            viewport as nat,
        ),
        rows_one_char(rows@),
{
    let mut rows: Vec<(usize, StyledLine<S>)> = Vec::new();
    let mut m = start_match;
    let ghost idxs = items_from(match_indices@, start_match as nat);
    let ghost full = tagged_rows(lines@, idxs, width as nat);
    while m < match_indices.len() && rows.len() < viewport
        invariant
            forall|k: int| 0 <= k < match_indices@.len() ==> #[trigger] match_indices@[k] < lines@.len(),
            start_match <= m,
            m < match_indices@.len() ==> start_match < match_indices@.len(),
            m <= match_indices@.len() || m == start_match,
            idxs == items_from(match_indices@, start_match as nat),
            full == tagged_rows(lines@, idxs, width as nat),
            start_match < match_indices@.len() ==> rows_view(rows@) == first_items(
                tagged_rows(lines@, match_indices@.subrange(start_match as int, m as int), width as nat),
                viewport as nat,
            ),
            start_match >= match_indices@.len() ==> rows@.len() == 0,
            rows_one_char(rows@),
        decreases match_indices@.len() - m,
    {
        let line_idx = match_indices[m];
        let ghost t = tagged_rows(lines@, match_indices@.subrange(start_match as int, m as int), width as nat);
        let ghost before = rows@;
        let wrapped = tagged_line(lines, line_idx, width);
        let ghost w = rows_view(wrapped@);
        let mut j: usize = 0;
        while j < wrapped.len() && rows.len() < viewport
            invariant
                j <= wrapped@.len(),
                w == rows_view(wrapped@),
                rows_view(rows@) == t + w.subrange(0, j as int),
                rows@.len() <= viewport,
                rows_one_char(rows@),
                rows_one_char(wrapped@),
            decreases wrapped@.len() - j,
        {
            let row_idx = wrapped[j].0;
            let row = copy_line(&wrapped[j].1);
            let ghost prev_rows = rows@;
            rows.push((row_idx, row));
            assert(w[j as int] == (row_idx, cells_of(row.spans@)));
            assert(rows_view(rows@) =~= rows_view(prev_rows).push((row_idx, cells_of(row.spans@))));
            j = j + 1;
            assert(rows_view(rows@) =~= t + w.subrange(0, j as int));
        }
        proof {
            let next = match_indices@.subrange(start_match as int, m + 1);
            assert(next =~= match_indices@.subrange(start_match as int, m as int).push(line_idx));
            assert(next.drop_last() =~= match_indices@.subrange(start_match as int, m as int));
            let t2 = tagged_rows(lines@, next, width as nat);
            assert(t2 == t + w);
            if j == wrapped@.len() {
                assert(w.subrange(0, j as int) =~= w);
            } else {
                assert((t + w).subrange(0, viewport as int) =~= t + w.subrange(0, j as int));
            }
        }
        m = m + 1;
    }
    proof {
        if start_match < match_indices@.len() {
            let done = match_indices@.subrange(start_match as int, m as int);
            let rest = match_indices@.subrange(m as int, match_indices@.len() as int);
            assert(idxs =~= done + rest);
            lemma_tagged_concat(lines@, done, rest, width as nat);
            let t = tagged_rows(lines@, done, width as nat);
            if m < match_indices@.len() {
                assert(first_items(t + tagged_rows(lines@, rest, width as nat), viewport as nat) =~= first_items(
                    t,
                    viewport as nat,
                ));
            } else {
                assert(rest =~= Seq::<usize>::empty());
                assert(t + tagged_rows(lines@, rest, width as nat) =~= t);
            }
        } else {
            assert(idxs =~= Seq::<usize>::empty());
        }
    }
    rows
}

/// Wraps the lines listed in `match_indices` backwards from the last one,
/// keeping the last `viewport` display rows, so that the most recent rows
/// are shown in full; each row is paired with its line index.
pub fn build_filtered_tail_rows<S: Copy>(
    lines: &Vec<StyledLine<S>>,
    match_indices: &Vec<usize>,
    viewport: usize,
    width: usize,
) -> (rows: Vec<(usize, StyledLine<S>)>)
    requires
        forall|k: int| 0 <= k < match_indices@.len() ==> #[trigger] match_indices@[k] < lines@.len(),
    ensures
        rows_view(rows@) == last_items(
            tagged_rows(lines@, match_indices@, width as nat),
            viewport as nat,
        ),
        rows_one_char(rows@),
{
    let mut rows: Vec<(usize, StyledLine<S>)> = Vec::new();
    let mut m = match_indices.len();
    assert(match_indices@.subrange(m as int, match_indices@.len() as int) =~= Seq::<usize>::empty());
    while m > 0 && rows.len() < viewport
        invariant
            forall|k: int| 0 <= k < match_indices@.len() ==> #[trigger] match_indices@[k] < lines@.len(),
            m <= match_indices@.len(),
            rows_view(rows@) == last_items(
                tagged_rows(
                    lines@,
                    match_indices@.subrange(m as int, match_indices@.len() as int),
                    width as nat,
                ),
                viewport as nat,
            ),
            rows_one_char(rows@),
        decreases m,
    {
        m = m - 1;
        let line_idx = match_indices[m];
        let ghost t = tagged_rows(
            lines@,
            match_indices@.subrange(m + 1, match_indices@.len() as int),
            width as nat,
        );
        let mut wrapped = tagged_line(lines, line_idx, width);
        let ghost w = rows_view(wrapped@);
        let ghost kept = rows_view(rows@);
        wrapped.append(&mut rows);
        rows = wrapped;
        assert(rows_view(rows@) =~= w + kept);
        if rows.len() > viewport {
            let excess = rows.len() - viewport;
            let ghost all_rows = rows@;
            rows = rows.split_off(excess);
            assert(rows@ =~= all_rows.subrange(excess as int, all_rows.len() as int));
            assert(rows_view(rows@) =~= rows_view(all_rows).subrange(excess as int, all_rows.len() as int));
        }
        proof {
            let cur = match_indices@.subrange(m as int, match_indices@.len() as int);
            let rest = match_indices@.subrange(m + 1, match_indices@.len() as int);
            assert(cur =~= seq![line_idx] + rest);
            lemma_tagged_concat(lines@, seq![line_idx], rest, width as nat);
            assert(seq![line_idx].drop_last() =~= Seq::<usize>::empty());
            assert(seq![line_idx].last() == line_idx);
            assert(tagged_rows(lines@, Seq::<usize>::empty(), width as nat) =~= Seq::<
                (usize, Seq<(char, S)>),
            >::empty());
            assert(tagged_rows(lines@, seq![line_idx], width as nat) =~= Seq::<
                (usize, Seq<(char, S)>),
            >::empty() + tag_rows(line_idx, wrapped_rows(lines@[line_idx as int], width as nat)));
            assert(tagged_rows(lines@, seq![line_idx], width as nat) =~= w);
            assert(last_items(w + kept, viewport as nat) =~= last_items(w + t, viewport as nat));
        }
    }
    proof {
        let done = match_indices@.subrange(0, m as int);
        let rest = match_indices@.subrange(m as int, match_indices@.len() as int);
        assert(match_indices@ =~= done + rest);
        lemma_tagged_concat(lines@, done, rest, width as nat);
        let t = tagged_rows(lines@, rest, width as nat);
        if m > 0 {
            assert(last_items(tagged_rows(lines@, done, width as nat) + t, viewport as nat) =~= last_items(
                t,
                viewport as nat,
            ));
        } else {
            assert(done =~= Seq::<usize>::empty());
            assert(tagged_rows(lines@, done, width as nat) + t =~= t);
        }
    }
    rows
}

/// The indices `from..to` as a vector.
fn indices(from: usize, to: usize) -> (r: Vec<usize>)
    ensures
        r@ == index_range(from as nat, to as nat),
{
    let mut r: Vec<usize> = Vec::new();
    let mut i = from;
    while i < to
        invariant
            from <= i <= to || (i == from && from >= to),
            r@ == index_range(from as nat, i as nat),
        decreases to - i,
    {
        r.push(i);
        i = i + 1;
        assert(r@ =~= index_range(from as nat, i as nat));
    }
    r
}

/// Wraps lines forward from `start`, pairing each display row with its
/// line index, until `viewport` rows are filled or the buffer runs out.
pub fn build_display_rows<S: Copy>(
    lines: &Vec<StyledLine<S>>,
    start: usize,
    viewport: usize,
    width: usize,
) -> (rows: Vec<(usize, StyledLine<S>)>)
    ensures
        rows_view(rows@) == first_items(
            tagged_rows(lines@, index_range(start as nat, lines@.len()), width as nat),
            viewport as nat,
        ),
        rows_one_char(rows@),
{
    let idx = indices(start, lines.len());
    let rows = build_filtered_rows(lines, &idx, 0, viewport, width);
    assert(items_from(idx@, 0) =~= idx@);
    rows
}

/// Wraps lines backward from the end of the buffer, keeping the last
/// `viewport` display rows in full (follow mode).
pub fn build_tail_rows<S: Copy>(lines: &Vec<StyledLine<S>>, viewport: usize, width: usize) -> (rows:
    Vec<(usize, StyledLine<S>)>)
    ensures
        rows_view(rows@) == last_items(
            tagged_rows(lines@, index_range(0, lines@.len()), width as nat),
            viewport as nat,
        ),
        rows_one_char(rows@),
{
    let idx = indices(0, lines.len());
    build_filtered_tail_rows(lines, &idx, viewport, width)
}

/// `char::is_control`: the general category Cc, U+0000 to U+001F and
/// U+007F to U+009F.
pub open spec fn is_control(c: char) -> bool {
    c <= '\u{1f}' || ('\u{7f}' <= c && c <= '\u{9f}')
}

/// Bidirectional marks, overrides and isolates, which reorder what follows
/// them on screen.
pub open spec fn is_bidi_control(c: char) -> bool {
    c == '\u{200E}' || c == '\u{200F}' || ('\u{202A}' <= c && c <= '\u{202E}') || ('\u{2066}' <= c
        && c <= '\u{2069}')
}

/// A character as written into a terminal cell: control and bidi
/// characters become spaces.
pub open spec fn cell_char(c: char) -> char {
    if is_control(c) || is_bidi_control(c) {
        ' '
    } else {
        c
    }
}

/// A text as written into terminal cells.
pub open spec fn sanitized(s: Seq<char>) -> Seq<char> {
    s.map_values(|c: char| cell_char(c))
}

/// No control character or bidi mark survives sanitising, and the text
/// keeps its length, so that it fills the same cells.
pub proof fn law_sanitized_text_is_inert(s: Seq<char>)
    ensures
        sanitized(s).len() == s.len(),
        forall|i: int|
            0 <= i < s.len() ==> !is_control(#[trigger] sanitized(s)[i]) && !is_bidi_control(sanitized(s)[i]),
{
}

/// Replaces control characters and bidi marks with spaces, so that none of
/// them reaches a terminal cell (a raw `\r` or backspace moves the cursor;
/// bidi marks reorder the row).
pub fn sanitize_cells(s: &str) -> (r: String)
    ensures
        r@ == sanitized(s@),
{
    let cs = chars_of(s);
    let mut r = String::new();
    let mut i: usize = 0;
    while i < cs.len()
        invariant
            i <= cs@.len(),
            cs@ == s@,
            r@ == s@.subrange(0, i as int).map_values(|c: char| cell_char(c)),
        decreases cs@.len() - i,
    {
        let c = cs[i];
        let control = c <= '\u{1f}' || ('\u{7f}' <= c && c <= '\u{9f}');
        let bidi = c == '\u{200E}' || c == '\u{200F}' || ('\u{202A}' <= c && c <= '\u{202E}') || (
        '\u{2066}' <= c && c <= '\u{2069}');
        if control || bidi {
            push_char(&mut r, ' ');
        } else {
            push_char(&mut r, c);
        }
        i = i + 1;
        assert(r@ =~= s@.subrange(0, i as int).map_values(|c: char| cell_char(c)));
    }
    assert(s@.subrange(0, s@.len() as int) =~= s@);
    r
}

/// Uptime as shown in the title bar: "{h}h {mm}m {ss}s" from one hour on,
/// "{m}m {ss}s" below.
pub open spec fn uptime_text(secs: nat) -> Seq<char> {
    let h = secs / 3600;
    let m = (secs % 3600) / 60;
    let s = secs % 60;
    if h > 0 {
        decimal(h) + "h "@ + two_digits(m) + "m "@ + two_digits(s) + "s"@
    } else {
        decimal(m) + "m "@ + two_digits(s) + "s"@
    }
}

/// Formats an uptime in seconds.
pub fn format_uptime(secs: u64) -> (r: String)
    ensures
        r@ == uptime_text(secs as nat),
{
    let h = secs / 3600;
    let m = (secs % 3600) / 60;
    let s = secs % 60;
    if h > 0 {
        let mut r = u64_to_decimal(h);
        r.append("h ");
        let mm = two_digit_decimal(m);
        r.append(mm.as_str());
        r.append("m ");
        let ss = two_digit_decimal(s);
        r.append(ss.as_str());
        r.append("s");
        r
    } else {
        let mut r = u64_to_decimal(m);
        r.append("m ");
        let ss = two_digit_decimal(s);
        r.append(ss.as_str());
        r.append("s");
        r
    }
}

/// The match the search cursor moves to: the next one forward (after the
/// last comes the first) or the previous one backward.
pub open spec fn next_cursor(cursor: nat, len: nat, forward: bool) -> nat {
    if forward {
        (cursor + 1) % len
    } else {
        ((cursor + len - 1) % (len as int)) as nat
    }
}

/// Moves the search cursor among `len` matches; unchanged when there are
/// none.
pub fn navigate_cursor(cursor: usize, len: usize, forward: bool) -> (r: usize)
    requires
        cursor < len || len == 0,
    ensures
        len == 0 ==> r == cursor,
        len > 0 ==> r == next_cursor(cursor as nat, len as nat, forward) && r < len,
{
    if len == 0 {
        return cursor;
    }
    if forward {
        (cursor + 1) % len
    } else if cursor == 0 {
        assert((len - 1) as int == ((cursor + len - 1) % (len as int))) by (nonlinear_arith)
            requires
                cursor == 0,
                len > 0,
        ;
        len - 1
    } else {
        assert((cursor - 1) as int == ((cursor + len - 1) % (len as int))) by (nonlinear_arith)
            requires
                0 < cursor < len,
        ;
        cursor - 1
    }
}

/// The content rows of a bordered pane (top inclusive, bottom exclusive),
/// or none when the pane is too short to have any.
pub fn log_inner_rows(y: u16, height: u16) -> (r: Option<(u16, u16)>)
    requires
        y + height <= u16::MAX,
    ensures
        height <= 2 ==> r is None,
        height > 2 ==> r == Some(((y + 1) as u16, (y + height - 1) as u16)),
{
    if height <= 2 {
        return None;
    }
    Some((y + 1, y + height - 1))
}

/// The logical line shown on the screen row `mouse_row` of the log pane
/// (at `y`, `height` rows, borders included): the row is clamped to the
/// content rows; past the rendered rows, a drag (`snap_to_last`) picks the
/// last one and a click nothing.
pub open spec fn line_at_row(visible_rows: Seq<usize>, y: u16, height: u16, mouse_row: u16, snap_to_last: bool) -> Option<usize> {
    if height <= 2 {
        None
    } else {
        let top = y + 1;
        let bottom = y + height - 1;
        let clamped = if mouse_row < top {
            top
        } else if mouse_row > bottom - 1 {
            bottom - 1
        } else {
            mouse_row as int
        };
        let row = clamped - top;
        if row < visible_rows.len() {
            Some(visible_rows[row])
        } else if snap_to_last && visible_rows.len() > 0 {
            Some(visible_rows.last())
        } else {
            None
        }
    }
}

/// The logical line shown on a screen row (see `line_at_row`).
pub fn row_to_line_idx(visible_rows: &Vec<usize>, y: u16, height: u16, mouse_row: u16, snap_to_last: bool)
    -> (r: Option<usize>)
    requires
        y + height <= u16::MAX,
    ensures
        r == line_at_row(visible_rows@, y, height, mouse_row, snap_to_last),
{
    let (top, bottom) = match log_inner_rows(y, height) {
        Some(b) => b,
        None => return None,
    };
    let last = bottom - 1;
    let clamped = if mouse_row < top {
        top
    } else if mouse_row > last {
        last
    } else {
        mouse_row
    };
    let row = (clamped - top) as usize;
    if row < visible_rows.len() {
        Some(visible_rows[row])
    } else if snap_to_last && visible_rows.len() > 0 {
        Some(visible_rows[visible_rows.len() - 1])
    } else {
        None
    }
}

} // verus!
