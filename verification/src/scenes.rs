//! Which screensaver scenes the configuration asks for.
use vstd::prelude::*;

use crate::commands::{to_lowercase, unicode_lower};
use crate::text::{chars_of, same_text, string_of, texts, trim_chars, trimmed};

verus! {

/// The scenes there are.
pub open spec fn scene_names() -> Seq<Seq<char>> {
    seq!["starfield"@, "rain"@, "particles"@]
}

/// Whether a name is one of the scenes.
pub open spec fn is_scene(name: Seq<char>) -> bool {
    name == "starfield"@ || name == "rain"@ || name == "particles"@
}

/// Whether a name is one of the scenes.
pub fn is_scene_name(name: &str) -> (r: bool)
    ensures
        r == is_scene(name@),
{
    same_text(name, "starfield") || same_text(name, "rain") || same_text(name, "particles")
}

/// Pieces of `s` finished so far and the piece in progress, cutting at
/// every `sep`.
pub open spec fn split_state(s: Seq<char>, sep: char) -> (Seq<Seq<char>>, Seq<char>)
    decreases s.len(),
{
    if s.len() == 0 {
        (seq![], seq![])
    } else {
        let (done, cur) = split_state(s.drop_last(), sep);
        if s.last() == sep {
            (done.push(cur), seq![])
        } else {
            (done, cur.push(s.last()))
        }
    }
}

/// The pieces of `s` between the separators (`str::split`).
pub open spec fn split_at_sep(s: Seq<char>, sep: char) -> Seq<Seq<char>> {
    let (done, cur) = split_state(s, sep);
    done.push(cur)
}

/// The pieces, trimmed, that name scenes, in order.
pub open spec fn known_scenes(pieces: Seq<Seq<char>>) -> Seq<Seq<char>>
    decreases pieces.len(),
{
    if pieces.len() == 0 {
        seq![]
    } else {
        let r = known_scenes(pieces.drop_last());
        let t = trimmed(pieces.last());
        if is_scene(t) {
            r.push(t)
        } else {
            r
        }
    }
}

/// The scenes a `scenes` setting selects: all of them for an empty
/// setting, for `all`, or when it names none; else those it names, in its
/// order, read case-insensitively and separated by commas.
pub open spec fn selected_scenes(spec: Seq<char>) -> Seq<Seq<char>> {
    let lowered = unicode_lower(trimmed(spec));
    if lowered.len() == 0 || lowered == "all"@ {
        scene_names()
    } else {
        let kept = known_scenes(split_at_sep(lowered, ','));
        if kept.len() == 0 {
            scene_names()
        } else {
            kept
        }
    }
}

fn all_scenes() -> (r: Vec<String>)
    ensures
        texts(r@) == scene_names(),
{
    let mut r: Vec<String> = Vec::new();
    r.push(crate::text::owned("starfield"));
    r.push(crate::text::owned("rain"));
    r.push(crate::text::owned("particles"));
    assert(texts(r@) =~= scene_names());
    r
}

/// The scenes selected by the `scenes` setting.
pub fn scene_list(spec: &str) -> (r: Vec<String>)
    ensures
        texts(r@) == selected_scenes(spec@),
{
    let cs = chars_of(spec);
    let t = trim_chars(cs.as_slice());
    let ts = string_of(t.as_slice());
    let lowered = to_lowercase(ts.as_str());
    if lowered.as_str().is_empty() || same_text(lowered.as_str(), "all") {
        return all_scenes();
    }
    let lc = chars_of(lowered.as_str());
    let mut done: Vec<Vec<char>> = Vec::new();
    let mut cur: Vec<char> = Vec::new();
    let mut i: usize = 0;
    while i < lc.len()
        invariant
            i <= lc@.len(),
            done@.map_values(|p: Vec<char>| p@) == split_state(lc@.subrange(0, i as int), ',').0,
            cur@ == split_state(lc@.subrange(0, i as int), ',').1,
        decreases lc@.len() - i,
    {
        assert(lc@.subrange(0, i + 1).drop_last() =~= lc@.subrange(0, i as int));
        let ghost before = done@.map_values(|p: Vec<char>| p@);
        if lc[i] == ',' {
            let piece = cur;
            cur = Vec::new();
            done.push(piece);
            assert(done@.map_values(|p: Vec<char>| p@) =~= before.push(
                split_state(lc@.subrange(0, i as int), ',').1,
            ));
        } else {
            cur.push(lc[i]);
            assert(done@.map_values(|p: Vec<char>| p@) =~= before);
        }
        i = i + 1;
    }
    assert(lc@.subrange(0, lc@.len() as int) =~= lc@);
    let ghost before_last = done@.map_values(|p: Vec<char>| p@);
    done.push(cur);
    let ghost pieces = split_at_sep(lc@, ',');
    assert(done@.map_values(|p: Vec<char>| p@) =~= pieces) by {
        assert(done@.map_values(|p: Vec<char>| p@) =~= before_last.push(split_state(lc@, ',').1));
    }
    let mut kept: Vec<String> = Vec::new();
    let mut k: usize = 0;
    while k < done.len()
        invariant
            k <= done@.len(),
            done@.map_values(|p: Vec<char>| p@) == pieces,
            texts(kept@) == known_scenes(pieces.subrange(0, k as int)),
        decreases done@.len() - k,
    {
        assert(pieces.subrange(0, k + 1).drop_last() =~= pieces.subrange(0, k as int));
        assert(pieces[k as int] == done@[k as int]@);
        let name = trim_chars(done[k].as_slice());
        let s = string_of(name.as_slice());
        if is_scene_name(s.as_str()) {
            let ghost before = texts(kept@);
            kept.push(s);
            assert(texts(kept@) =~= before.push(trimmed(pieces[k as int])));
        }
        k = k + 1;
    }
    assert(pieces.subrange(0, done@.len() as int) =~= pieces);
    if kept.len() == 0 {
        return all_scenes();
    }
    kept
}

/// `s` with the items at `i` and `j` swapped.
pub open spec fn swap_at<A>(s: Seq<A>, i: int, j: int) -> Seq<A> {
    s.update(i, s[j]).update(j, s[i])
}

/// Draws fit for shuffling `n` items: one per position, the draw for
/// position `i` at most `i`.
pub open spec fn valid_draws(d: Seq<usize>, n: nat) -> bool {
    d.len() == n && forall|i: int| 0 <= i < n ==> #[trigger] d[i] <= i
}

/// A Fisher–Yates shuffle from position `k` down to 1: position `k` is
/// swapped with position `d[k]`, then the positions below it are shuffled.
pub open spec fn shuffle_down<A>(s: Seq<A>, d: Seq<usize>, k: int) -> Seq<A>
    decreases k,
{
    if k < 1 {
        s
    } else {
        shuffle_down(swap_at(s, k, d[k] as int), d, k - 1)
    }
}

/// The names shuffled by the given draws, from the last position down to
/// the second.
pub fn shuffle_by_draws(names: Vec<String>, draws: &Vec<usize>) -> (r: Vec<String>)
    requires
        valid_draws(draws@, names@.len()),
    ensures
        r@ == shuffle_down(names@, draws@, names@.len() - 1),
{
    let mut v = names;
    let n = v.len();
    if n == 0 {
        return v;
    }
    let mut i: usize = n - 1;
    while i >= 1
        invariant
            v@.len() == n,
            n == names@.len(),
            i < n,
            valid_draws(draws@, names@.len()),
            shuffle_down(v@, draws@, i as int) == shuffle_down(names@, draws@, names@.len() - 1),
        decreases i,
    {
        let j = draws[i];
        assert(draws@[i as int] <= i);
        let a = v[i].clone();
        let b = v[j].clone();
        let ghost before = v@;
        v.set(i, b);
        v.set(j, a);
        assert(v@ =~= swap_at(before, i as int, j as int));
        i = i - 1;
    }
    v
}

/// Shuffling by valid draws keeps every item, each as often as before.
pub proof fn law_shuffle_keeps_every_item<A>(s: Seq<A>, d: Seq<usize>, k: int)
    requires
        k < s.len(),
        valid_draws(d, s.len()),
    ensures
        shuffle_down(s, d, k).to_multiset() == s.to_multiset(),
        shuffle_down(s, d, k).len() == s.len(),
    decreases k,
{
    broadcast use vstd::seq_lib::to_multiset_update, vstd::seq_lib::to_multiset_contains,
        vstd::multiset::group_multiset_axioms;
    if k >= 1 {
        let j = d[k] as int;
        assert(0 <= j <= k);
        let t = swap_at(s, k, j);
        let u = s.update(k, s[j]);
        assert(u.len() == s.len());
        assert(u[j] == s[j]);
        let m = s.to_multiset();
        assert(s.contains(s[k]));
        assert(m.count(s[k]) > 0);
        assert(u.to_multiset() == m.insert(s[j]).remove(s[k]));
        assert(t.to_multiset() == u.to_multiset().insert(s[k]).remove(s[j]));
        assert(t.to_multiset() =~= m);
        law_shuffle_keeps_every_item(t, d, k - 1);
    }
}

/// The scenes in a random order: every position from the last down to the
/// second is swapped with one drawn at random at or below it.
pub fn shuffled_scenes(names: Vec<String>) -> (r: Vec<String>)
    ensures
        exists|d: Seq<usize>| valid_draws(d, names@.len()) && r@ == shuffle_down(names@, d, names@.len() - 1),
        r@.to_multiset() == names@.to_multiset(),
{
    let n = names.len();
    let mut draws: Vec<usize> = Vec::new();
    while draws.len() < n
        invariant
            draws@.len() <= n,
            forall|i: int| 0 <= i < draws@.len() ==> #[trigger] draws@[i] <= i,
        decreases n - draws@.len(),
    {
        let k = draws.len();
        draws.push(crate::proxy::random_below(k + 1));
    }
    let ghost original = names@;
    let r = shuffle_by_draws(names, &draws);
    assert(valid_draws(draws@, n as nat));
    proof {
        if n > 0 {
            law_shuffle_keeps_every_item(original, draws@, n - 1);
        }
    }
    r
}

} // verus!
