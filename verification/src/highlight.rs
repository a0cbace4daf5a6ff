//! Marking the places where a search term occurs in a log line.
use vstd::prelude::*;

use crate::viewer::occurs_at;

verus! {

/// Non-overlapping occurrences of `needle` in `hay` from position `p` on,
/// found left to right, as (start, end) character positions.
pub open spec fn ranges_from(hay: Seq<char>, needle: Seq<char>, p: int) -> Seq<(usize, usize)>
    decreases hay.len() - p,
{
    if p < 0 || p >= hay.len() || p + needle.len() > hay.len() {
        seq![]
    } else if occurs_at(hay, needle, p) && needle.len() > 0 {
        seq![(p as usize, (p + needle.len()) as usize)] + ranges_from(hay, needle, p + needle.len())
    } else {
        ranges_from(hay, needle, p + 1)
    }
}

/// The occurrences of a (non-empty) term in a text, left to right, none
/// overlapping another (`str::match_indices`).
pub fn match_ranges(hay: &Vec<char>, needle: &Vec<char>) -> (r: Vec<(usize, usize)>)
    requires
        needle@.len() > 0,
    ensures
        r@ == ranges_from(hay@, needle@, 0),
{
    let n = needle.len();
    let mut r: Vec<(usize, usize)> = Vec::new();
    if n > hay.len() {
        return r;
    }
    let last = hay.len() - n;
    let mut p: usize = 0;
    while p <= last
        invariant
            n == needle@.len(),
            n >= 1,
            hay@.len() <= usize::MAX,
            last + n == hay@.len(),
            p <= last + n,
            ranges_from(hay@, needle@, 0) == r@ + ranges_from(hay@, needle@, p as int),
        decreases last + n - p,
    {
        let mut k: usize = 0;
        while k < n && hay[p + k] == needle[k]
            invariant
                n == needle@.len(),
                hay@.len() <= usize::MAX,
                last + n == hay@.len(),
                p <= last,
                k <= n,
                forall|t: int| 0 <= t < k ==> hay@[p + t] == needle@[t],
            decreases n - k,
        {
            k = k + 1;
        }
        if k == n {
            assert(hay@.subrange(p as int, p + n) =~= needle@);
            let ghost before = r@;
            r.push((p, p + n));
            assert(r@ =~= before + seq![(p as usize, (p + n) as usize)]);
            assert(ranges_from(hay@, needle@, p as int) == seq![(p as usize, (p + n) as usize)]
                + ranges_from(hay@, needle@, p + n));
            assert(r@ + ranges_from(hay@, needle@, p + n) =~= before + ranges_from(
                hay@,
                needle@,
                p as int,
            ));
            p = p + n;
        } else {
            assert(!occurs_at(hay@, needle@, p as int)) by {
                assert(hay@.subrange(p as int, p + n)[k as int] == hay@[p + k]);
            }
            p = p + 1;
        }
    }
    assert(ranges_from(hay@, needle@, p as int) =~= Seq::<(usize, usize)>::empty());
    assert(r@ + Seq::<(usize, usize)>::empty() =~= r@);
    r
}

/// Position `k` lies in one of the ranges.
pub open spec fn in_ranges(ranges: Seq<(usize, usize)>, k: int) -> bool {
    exists|j: int| 0 <= j < ranges.len() && (#[trigger] ranges[j]).0 <= k < ranges[j].1
}

fn covered(ranges: &Vec<(usize, usize)>, k: usize) -> (r: bool)
    ensures
        r == in_ranges(ranges@, k as int),
{
    let mut j: usize = 0;
    while j < ranges.len()
        invariant
            j <= ranges@.len(),
            forall|t: int| 0 <= t < j ==> !((#[trigger] ranges@[t]).0 <= k < ranges@[t].1),
        decreases ranges@.len() - j,
    {
        if ranges[j].0 <= k && k < ranges[j].1 {
            return true;
        }
        j = j + 1;
    }
    false
}

/// The styled characters with those in the ranges given the `mark` style.
pub fn highlight_cells<S: Copy>(cells: &Vec<(char, S)>, ranges: &Vec<(usize, usize)>, mark: S) -> (r: Vec<
    (char, S),
>)
    ensures
        r@.len() == cells@.len(),
        forall|k: int| 0 <= k < cells@.len() ==> #[trigger] r@[k] == (cells@[k].0, if in_ranges(ranges@, k) {
            mark
        } else {
            cells@[k].1
        }),
{
    let mut r: Vec<(char, S)> = Vec::new();
    let mut k: usize = 0;
    while k < cells.len()
        invariant
            k <= cells@.len(),
            r@.len() == k,
            forall|t: int| 0 <= t < k ==> #[trigger] r@[t] == (cells@[t].0, if in_ranges(ranges@, t) {
                mark
            } else {
                cells@[t].1
            }),
        decreases cells@.len() - k,
    {
        let (c, s) = cells[k];
        let style = if covered(ranges, k) { mark } else { s };
        r.push((c, style));
        k = k + 1;
    }
    r
}

} // verus!
