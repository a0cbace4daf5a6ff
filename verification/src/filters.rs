//! Which services' log lines are shown: an ordered list of labels with an
//! on/off flag, and the short keys (aliases) that toggle them.
use vstd::prelude::*;

use crate::routes::Route;
use crate::text::{texts, ascii_lower, chars_of, owned, same_text, string_of, to_ascii_lower, trim_leading_slashes, without_leading_slashes};

verus! {

/// Label of the filter entry for log lines received from clients.
pub open spec fn logs_key() -> Seq<char> {
    "Logs"@
}

/// The label `should_show` maps client log lines ("LOG") to.
pub open spec fn client_log_label() -> Seq<char> {
    "LOG"@
}

/// Filter entries as (label, shown) pairs of character sequences.
pub open spec fn state_view(s: Seq<(String, bool)>) -> Seq<(Seq<char>, bool)> {
    s.map_values(|p: (String, bool)| (p.0@, p.1))
}

/// Index of the first entry labelled `k` at or after `from`, or -1.
pub open spec fn first_index(s: Seq<(Seq<char>, bool)>, k: Seq<char>, from: int) -> int
    decreases s.len() - from,
{
    if from < 0 || from >= s.len() {
        -1
    } else if s[from].0 == k {
        from
    } else {
        first_index(s, k, from + 1)
    }
}

/// The on/off flag of the last entry labelled `k` among the first `n`.
pub open spec fn last_value(s: Seq<(Seq<char>, bool)>, k: Seq<char>, n: int) -> Option<bool>
    decreases n,
{
    if n <= 0 || n > s.len() {
        None
    } else if s[n - 1].0 == k {
        Some(s[n - 1].1)
    } else {
        last_value(s, k, n - 1)
    }
}

/// The flag a label keeps across a rebuild: its last recorded value, or
/// shown when it was not listed.
pub open spec fn previous_setting(s: Seq<(Seq<char>, bool)>, k: Seq<char>) -> bool {
    match last_value(s, k, s.len() as int) {
        Some(b) => b,
        None => true,
    }
}

/// The first `n` labels of `ls` with repeats dropped, in order of first
/// appearance.
pub open spec fn distinct_upto(ls: Seq<Seq<char>>, n: int) -> Seq<Seq<char>>
    decreases n,
{
    if n <= 0 || n > ls.len() {
        seq![]
    } else {
        let d = distinct_upto(ls, n - 1);
        if d.contains(ls[n - 1]) {
            d
        } else {
            d.push(ls[n - 1])
        }
    }
}

/// The labels of the routes, in order.
pub open spec fn route_labels(routes: Seq<Route>) -> Seq<Seq<char>> {
    routes.map_values(|r: Route| r.label@)
}

/// Filter entries after a rebuild from `routes`: each distinct route
/// label in order, then the client log entry, each keeping its previous
/// flag.
pub open spec fn rebuilt_state(prev: Seq<(Seq<char>, bool)>, routes: Seq<Route>) -> Seq<
    (Seq<char>, bool),
> {
    let ls = route_labels(routes);
    distinct_upto(ls, ls.len() as int).map_values(
        |l: Seq<char>| (l, previous_setting(prev, l)),
    ).push((logs_key(), previous_setting(prev, logs_key())))
}

/// Whether a log line of the service `label` is shown.
pub open spec fn shown(s: Seq<(Seq<char>, bool)>, label: Seq<char>) -> bool {
    if label.len() == 0 {
        true
    } else {
        let key = if label == client_log_label() {
            logs_key()
        } else {
            label
        };
        let i = first_index(s, key, 0);
        if i < 0 {
            true
        } else {
            s[i].1
        }
    }
}

/// The entries after toggling `label`: the flag of its first entry flips.
pub open spec fn toggled(s: Seq<(Seq<char>, bool)>, label: Seq<char>) -> Seq<(Seq<char>, bool)> {
    let i = first_index(s, label, 0);
    if i < 0 {
        s
    } else {
        s.update(i, (s[i].0, !s[i].1))
    }
}

/// Every entry set to `on`.
pub open spec fn all_set(s: Seq<(Seq<char>, bool)>, on: bool) -> Seq<(Seq<char>, bool)> {
    s.map_values(|p: (Seq<char>, bool)| (p.0, on))
}

/// The label the last of the first `n` alias entries with key `k` maps to.
pub open spec fn alias_lookup(a: Seq<(String, String)>, k: Seq<char>, n: int) -> Option<Seq<char>>
    decreases n,
{
    if n <= 0 || n > a.len() {
        None
    } else if a[n - 1].0@ == k {
        Some(a[n - 1].1@)
    } else {
        alias_lookup(a, k, n - 1)
    }
}

/// The label an alias table maps `k` to.
pub open spec fn alias_of(a: Seq<(String, String)>, k: Seq<char>) -> Option<Seq<char>> {
    alias_lookup(a, k, a.len() as int)
}

/// The label of the last of the first `n` routes whose prefix, without its
/// leading slashes, is `k`.
pub open spec fn prefix_alias(routes: Seq<Route>, k: Seq<char>, n: int) -> Option<Seq<char>>
    decreases n,
{
    if n <= 0 || n > routes.len() {
        None
    } else if trim_leading_slashes(routes[n - 1].prefix@) == k {
        Some(routes[n - 1].label@)
    } else {
        prefix_alias(routes, k, n - 1)
    }
}

/// The client log label followed by the route labels.
pub open spec fn all_labels(routes: Seq<Route>) -> Seq<Seq<char>> {
    seq![logs_key()] + route_labels(routes)
}

/// The lowercased first character of a label, if any.
pub open spec fn initial(l: Seq<char>) -> Option<char> {
    if l.len() > 0 {
        Some(ascii_lower(l[0]))
    } else {
        None
    }
}

/// How many of the first `n` labels have initial `c`.
pub open spec fn count_initial(ls: Seq<Seq<char>>, c: char, n: int) -> nat
    decreases n,
{
    if n <= 0 || n > ls.len() {
        0
    } else {
        count_initial(ls, c, n - 1) + if initial(ls[n - 1]) == Some(c) {
            1nat
        } else {
            0nat
        }
    }
}

/// The last of the first `n` labels with initial `c`.
pub open spec fn label_with_initial(ls: Seq<Seq<char>>, c: char, n: int) -> Seq<char>
    decreases n,
{
    if n <= 0 || n > ls.len() {
        seq![]
    } else if initial(ls[n - 1]) == Some(c) {
        ls[n - 1]
    } else {
        label_with_initial(ls, c, n - 1)
    }
}

/// A one-character key `k` names the only label with that initial.
pub open spec fn initial_alias(routes: Seq<Route>, k: Seq<char>) -> Option<Seq<char>> {
    let ls = all_labels(routes);
    if k.len() == 1 && count_initial(ls, k[0], ls.len() as int) == 1 {
        Some(label_with_initial(ls, k[0], ls.len() as int))
    } else {
        None
    }
}

/// The label a key toggles after a rebuild from `routes`: a unique
/// initial wins; then "l" for the client log entry; then a route prefix
/// without its leading slashes (the last such route).
pub open spec fn expected_alias(routes: Seq<Route>, k: Seq<char>) -> Option<Seq<char>> {
    match initial_alias(routes, k) {
        Some(l) => Some(l),
        None => if k == seq!['l'] {
            Some(logs_key())
        } else {
            prefix_alias(routes, k, routes.len() as int)
        },
    }
}

proof fn lemma_alias_overwrite(
    a: Seq<(String, String)>,
    b: Seq<(String, String)>,
    k: Seq<char>,
    v: Seq<char>,
    n: int,
)
    requires
        a.len() == b.len(),
        0 <= n <= a.len(),
        forall|j: int|
            #![trigger b[j]]
            0 <= j < a.len() ==> b[j].0@ == a[j].0@ && (if a[j].0@ == k {
                b[j].1@ == v
            } else {
                b[j].1@ == a[j].1@
            }),
    ensures
        forall|k2: Seq<char>|
            #![trigger alias_lookup(b, k2, n)]
            alias_lookup(b, k2, n) == if k2 == k && alias_lookup(a, k, n) is Some {
                Some(v)
            } else {
                alias_lookup(a, k2, n)
            },
    decreases n,
{
    if n > 0 {
        lemma_alias_overwrite(a, b, k, v, n - 1);
        let last = b[n - 1];
        assert(last.0@ == a[n - 1].0@);
        assert forall|k2: Seq<char>|
            #![trigger alias_lookup(b, k2, n)]
            alias_lookup(b, k2, n) == if k2 == k && alias_lookup(a, k, n) is Some {
                Some(v)
            } else {
                alias_lookup(a, k2, n)
            } by {
            if a[n - 1].0@ == k2 {
            } else {
                assert(alias_lookup(b, k2, n) == alias_lookup(b, k2, n - 1));
                assert(alias_lookup(a, k2, n) == alias_lookup(a, k2, n - 1));
                if k2 == k {
                    assert(alias_lookup(a, k, n) == alias_lookup(a, k, n - 1));
                }
            }
        }
    }
}

proof fn lemma_alias_lookup_some(a: Seq<(String, String)>, k: Seq<char>, n: int, j: int)
    requires
        0 <= j < n <= a.len(),
        a[j].0@ == k,
    ensures
        alias_lookup(a, k, n) is Some,
    decreases n,
{
    if n - 1 != j && a[n - 1].0@ != k {
        lemma_alias_lookup_some(a, k, n - 1, j);
    }
}

/// Makes `k` map to `v`: entries with key `k` take the new label, or a new
/// entry is added when there is none.
fn set_alias(a: &mut Vec<(String, String)>, k: String, v: String)
    ensures
        forall|k2: Seq<char>|
            #![trigger alias_of(final(a)@, k2)]
            alias_of(final(a)@, k2) == if k2 == k@ {
                Some(v@)
            } else {
                alias_of(old(a)@, k2)
            },
{
    let ghost before = a@;
    let mut found = false;
    let mut i: usize = 0;
    while i < a.len()
        invariant
            i <= a@.len(),
            a@.len() == before.len(),
            found == exists|j: int| 0 <= j < i && #[trigger] before[j].0@ == k@,
            forall|j: int|
                #![trigger a@[j]]
                0 <= j < i ==> a@[j].0@ == before[j].0@ && (if before[j].0@ == k@ {
                    a@[j].1@ == v@
                } else {
                    a@[j].1@ == before[j].1@
                }),
            forall|j: int| #![trigger a@[j]] i <= j < a@.len() ==> a@[j] == before[j],
        decreases a@.len() - i,
    {
        if a[i].0 == k {
            let key = a[i].0.clone();
            a.set(i, (key, v.clone()));
            found = true;
        }
        assert(a@[i as int].0@ == before[i as int].0@);
        i = i + 1;
    }
    proof {
        lemma_alias_overwrite(before, a@, k@, v@, before.len() as int);
        if found {
            let j = choose|j: int| 0 <= j < before.len() && #[trigger] before[j].0@ == k@;
            lemma_alias_lookup_some(before, k@, before.len() as int, j);
        } else {
            if alias_lookup(before, k@, before.len() as int) is Some {
                lemma_alias_lookup_found(before, k@, before.len() as int);
            }
        }
    }
    if !found {
        let ghost mid = a@;
        a.push((k, v));
        proof {
            assert forall|k2: Seq<char>| k2 != k@ implies alias_lookup(a@, k2, a@.len() as int) == alias_lookup(
                mid,
                k2,
                mid.len() as int,
            ) by {
                lemma_alias_prefix(a@, mid, k2, mid.len() as int);
            }
        }
    }
}

proof fn lemma_alias_lookup_found(a: Seq<(String, String)>, k: Seq<char>, n: int)
    requires
        alias_lookup(a, k, n) is Some,
    ensures
        exists|j: int| 0 <= j < n && j < a.len() && a[j].0@ == k,
    decreases n,
{
    if n > 0 && n <= a.len() && a[n - 1].0@ != k {
        lemma_alias_lookup_found(a, k, n - 1);
    }
}

proof fn lemma_alias_prefix(a: Seq<(String, String)>, b: Seq<(String, String)>, k: Seq<char>, n: int)
    requires
        0 <= n <= b.len(),
        b.len() <= a.len(),
        forall|j: int| 0 <= j < b.len() ==> #[trigger] a[j] == b[j],
    ensures
        alias_lookup(a, k, n) == alias_lookup(b, k, n),
    decreases n,
{
    if n > 0 {
        lemma_alias_prefix(a, b, k, n - 1);
    }
}

proof fn lemma_count_positive(ls: Seq<Seq<char>>, c: char, t: int, m: int)
    requires
        0 <= t < m <= ls.len(),
        initial(ls[t]) == Some(c),
    ensures
        count_initial(ls, c, m) >= 1,
    decreases m,
{
    if m - 1 != t {
        lemma_count_positive(ls, c, t, m - 1);
    }
}

proof fn lemma_unique_initial(ls: Seq<Seq<char>>, c: char, t: int, n: int)
    requires
        0 <= t < n <= ls.len(),
        initial(ls[t]) == Some(c),
        count_initial(ls, c, n) == 1,
    ensures
        label_with_initial(ls, c, n) == ls[t],
    decreases n,
{
    if n - 1 != t {
        lemma_count_positive(ls, c, t, n - 1);
        lemma_unique_initial(ls, c, t, n - 1);
    }
}

/// The lowercased first character of `l`, if any.
fn initial_of(l: &String) -> (r: Option<char>)
    ensures
        r == initial(l@),
{
    let cs = chars_of(l.as_str());
    if cs.len() > 0 {
        Some(to_ascii_lower(cs[0]))
    } else {
        None
    }
}

/// How many labels have initial `c`.
fn count_with_initial(ls: &Vec<String>, c: char) -> (r: usize)
    ensures
        r == count_initial(texts(ls@), c, ls@.len() as int),
{
    let mut n: usize = 0;
    let mut i: usize = 0;
    while i < ls.len()
        invariant
            i <= ls@.len(),
            n == count_initial(texts(ls@), c, i as int),
            n <= i,
        decreases ls@.len() - i,
    {
        if initial_of(&ls[i]) == Some(c) {
            n = n + 1;
        }
        i = i + 1;
    }
    n
}

/// The client log label followed by the route labels.
fn labels_of(routes: &Vec<Route>) -> (r: Vec<String>)
    ensures
        texts(r@) == all_labels(routes@),
{
    let mut r: Vec<String> = Vec::new();
    r.push(owned("Logs"));
    let mut i: usize = 0;
    while i < routes.len()
        invariant
            i <= routes@.len(),
            texts(r@) == seq!["Logs"@] + route_labels(routes@).subrange(0, i as int),
        decreases routes@.len() - i,
    {
        let ghost prev = texts(r@);
        r.push(routes[i].label.clone());
        assert(texts(r@) =~= prev.push(routes@[i as int].label@));
        assert(route_labels(routes@)[i as int] == routes@[i as int].label@);
        i = i + 1;
        assert(texts(r@) =~= seq!["Logs"@] + route_labels(routes@).subrange(0, i as int));
    }
    assert(route_labels(routes@).subrange(0, routes@.len() as int) =~= route_labels(routes@));
    r
}

/// Alias table rebuilt from the routes.
fn rebuilt_aliases(routes: &Vec<Route>) -> (a: Vec<(String, String)>)
    ensures
        forall|k: Seq<char>| #[trigger] alias_of(a@, k) == expected_alias(routes@, k),
{
    let mut a: Vec<(String, String)> = Vec::new();
    let mut i: usize = 0;
    while i < routes.len()
        invariant
            i <= routes@.len(),
            forall|k: Seq<char>| #[trigger] alias_of(a@, k) == prefix_alias(routes@, k, i as int),
        decreases routes@.len() - i,
    {
        let short = without_leading_slashes(routes[i].prefix.as_str());
        set_alias(&mut a, short, routes[i].label.clone());
        i = i + 1;
    }
    let mut l = String::new();
    crate::text::push_char(&mut l, 'l');
    set_alias(&mut a, l, owned("Logs"));
    let ghost base = |k: Seq<char>|
        if k == seq!['l'] {
            Some(logs_key())
        } else {
            prefix_alias(routes@, k, routes@.len() as int)
        };
    proof {
        reveal_strlit("Logs");
        assert forall|k: Seq<char>| #[trigger] alias_of(a@, k) == base(k) by {
            if k == seq!['l'] {
            } else {
            }
        }
    }
    let labels = labels_of(routes);
    let ghost ls = texts(labels@);
    let mut t: usize = 0;
    while t < labels.len()
        invariant
            t <= labels@.len(),
            ls == texts(labels@),
            ls == all_labels(routes@),
            forall|k: Seq<char>|
                #[trigger] alias_of(a@, k) == if k.len() == 1 && count_initial(
                    ls,
                    k[0],
                    ls.len() as int,
                ) == 1 && count_initial(ls, k[0], t as int) >= 1 {
                    Some(label_with_initial(ls, k[0], ls.len() as int))
                } else {
                    base(k)
                },
        decreases labels@.len() - t,
    {
        let ghost before = a@;
        assert(ls[t as int] == labels@[t as int]@);
        match initial_of(&labels[t]) {
            Some(c) => {
                let cnt = count_with_initial(&labels, c);
                if cnt == 1 {
                    let mut key = String::new();
                    crate::text::push_char(&mut key, c);
                    proof {
                        lemma_unique_initial(ls, c, t as int, ls.len() as int);
                    }
                    set_alias(&mut a, key, labels[t].clone());
                }
                proof {
                    assert forall|k: Seq<char>|
                        #[trigger] alias_of(a@, k) == if k.len() == 1 && count_initial(
                            ls,
                            k[0],
                            ls.len() as int,
                        ) == 1 && count_initial(ls, k[0], t + 1) >= 1 {
                            Some(label_with_initial(ls, k[0], ls.len() as int))
                        } else {
                            base(k)
                        } by {
                        assert(count_initial(ls, c, t + 1) == count_initial(ls, c, t as int) + 1);
                        if k.len() == 1 && k[0] != c {
                            assert(count_initial(ls, k[0], t + 1) == count_initial(ls, k[0], t as int));
                        }
                        if k == seq![c] {
                            assert(k[0] == c);
                        } else if k.len() == 1 {
                            assert(k =~= seq![k[0]]);
                            assert(k[0] != c);
                        }
                    }
                }
            },
            None => {
                proof {
                    assert forall|k: Seq<char>| k.len() == 1 implies count_initial(ls, k[0], t + 1)
                        == count_initial(ls, k[0], t as int) by {}
                }
            },
        }
        t = t + 1;
    }
    a
}

/// Filter state with its aliases.
pub struct Filters {
    /// Labels with their shown flag, in display order.
    pub state: Vec<(String, bool)>,
    /// Short keys and the label each one toggles; a later entry with the
    /// same key takes precedence.
    pub aliases: Vec<(String, String)>,
}

proof fn lemma_first_index_bounds(s: Seq<(Seq<char>, bool)>, k: Seq<char>, from: int)
    requires
        0 <= from,
    ensures
        first_index(s, k, from) == -1 || (from <= first_index(s, k, from) < s.len() && s[first_index(
            s,
            k,
            from,
        )].0 == k),
        forall|j: int| from <= j < s.len() && s[j].0 == k ==> first_index(s, k, from) != -1
            && first_index(s, k, from) <= j,
    decreases s.len() - from,
{
    if from < s.len() && s[from].0 != k {
        lemma_first_index_bounds(s, k, from + 1);
    }
}

/// Index of the first entry of `s` labelled `k`.
fn find_label(s: &Vec<(String, bool)>, k: &str) -> (r: Option<usize>)
    ensures
        match r {
            Some(i) => i < s@.len() && s@[i as int].0@ == k@ && i as int == first_index(
                state_view(s@),
                k@,
                0,
            ),
            None => first_index(state_view(s@), k@, 0) == -1,
        },
{
    let ghost v = state_view(s@);
    let mut i: usize = 0;
    while i < s.len()
        invariant
            i <= s@.len(),
            v == state_view(s@),
            first_index(v, k@, 0) == first_index(v, k@, i as int),
        decreases s@.len() - i,
    {
        if same_text(s[i].0.as_str(), k) {
            assert(v[i as int].0 == k@);
            return Some(i);
        }
        i = i + 1;
    }
    None
}

/// The flag the last entry labelled `k` records, or shown when none does.
fn previous_flag(prev: &Vec<(String, bool)>, k: &String) -> (r: bool)
    ensures
        r == previous_setting(state_view(prev@), k@),
{
    let ghost v = state_view(prev@);
    let mut n: usize = prev.len();
    while n > 0
        invariant
            n <= prev@.len(),
            v == state_view(prev@),
            last_value(v, k@, prev@.len() as int) == last_value(v, k@, n as int),
        decreases n,
    {
        if prev[n - 1].0 == *k {
            return prev[n - 1].1;
        }
        n = n - 1;
    }
    true
}

/// Whether some entry is labelled `k`.
fn has_entry(s: &Vec<(String, bool)>, k: &String) -> (r: bool)
    ensures
        r == state_view(s@).map_values(|p: (Seq<char>, bool)| p.0).contains(k@),
{
    let ghost keys = state_view(s@).map_values(|p: (Seq<char>, bool)| p.0);
    let mut i: usize = 0;
    while i < s.len()
        invariant
            i <= s@.len(),
            keys == state_view(s@).map_values(|p: (Seq<char>, bool)| p.0),
            forall|j: int| 0 <= j < i ==> keys[j] != k@,
        decreases s@.len() - i,
    {
        if s[i].0 == *k {
            assert(keys[i as int] == k@);
            return true;
        }
        i = i + 1;
    }
    false
}

/// Filter entries rebuilt from the routes, keeping the flags of `prev`.
fn rebuilt_entries(prev: &Vec<(String, bool)>, routes: &Vec<Route>) -> (r: Vec<(String, bool)>)
    ensures
        state_view(r@) == rebuilt_state(state_view(prev@), routes@),
{
    let ghost ls = route_labels(routes@);
    let ghost pv = state_view(prev@);
    let mut state: Vec<(String, bool)> = Vec::new();
    let mut i: usize = 0;
    while i < routes.len()
        invariant
            i <= routes@.len(),
            ls == route_labels(routes@),
            pv == state_view(prev@),
            state_view(state@) == distinct_upto(ls, i as int).map_values(
                |l: Seq<char>| (l, previous_setting(pv, l)),
            ),
        decreases routes@.len() - i,
    {
        let label = &routes[i].label;
        let ghost d = distinct_upto(ls, i as int);
        assert(ls[i as int] == label@);
        assert(d.map_values(|l: Seq<char>| (l, previous_setting(pv, l))).map_values(
            |p: (Seq<char>, bool)| p.0,
        ) =~= d);
        if !has_entry(&state, label) {
            let on = previous_flag(prev, label);
            state.push((label.clone(), on));
        }
        i = i + 1;
        assert(state_view(state@) =~= distinct_upto(ls, i as int).map_values(
            |l: Seq<char>| (l, previous_setting(pv, l)),
        ));
    }
    let logs = owned("Logs");
    let on = previous_flag(prev, &logs);
    state.push((logs, on));
    proof {
        reveal_strlit("Logs");
    }
    assert(state_view(state@) =~= rebuilt_state(pv, routes@));
    state
}

impl Filters {
    /// Filters for the given routes, every entry shown.
    pub fn new(routes: &Vec<Route>) -> (f: Filters)
        ensures
            state_view(f.state@) == rebuilt_state(seq![], routes@),
            forall|k: Seq<char>| #[trigger] alias_of(f.aliases@, k) == expected_alias(routes@, k),
    {
        let mut f = Filters { state: Vec::new(), aliases: Vec::new() };
        f.rebuild(routes);
        assert(state_view(Seq::<(String, bool)>::empty()) =~= seq![]);
        f
    }

    /// Rebuilds the entries and aliases from the routes. Each distinct
    /// route label gets an entry, in order, then the client log entry; a
    /// label keeps the flag it had (the last one recorded), a new label is
    /// shown. Aliases: each route prefix without its leading slashes, then
    /// "l" for client logs, then each initial that only one label has.
    pub fn rebuild(&mut self, routes: &Vec<Route>)
        ensures
            state_view(final(self).state@) == rebuilt_state(state_view(old(self).state@), routes@),
            forall|k: Seq<char>|
                #[trigger] alias_of(final(self).aliases@, k) == expected_alias(routes@, k),
    {
        let state = rebuilt_entries(&self.state, routes);
        let aliases = rebuilt_aliases(routes);
        self.state = state;
        self.aliases = aliases;
    }

    /// The label the key `key` toggles, if any.
    pub fn alias(&self, key: &str) -> (r: Option<String>)
        ensures
            match r {
                Some(l) => alias_of(self.aliases@, key@) == Some(l@),
                None => alias_of(self.aliases@, key@) is None,
            },
    {
        let mut n: usize = self.aliases.len();
        while n > 0
            invariant
                n <= self.aliases@.len(),
                alias_of(self.aliases@, key@) == alias_lookup(self.aliases@, key@, n as int),
            decreases n,
        {
            if same_text(self.aliases[n - 1].0.as_str(), key) {
                return Some(self.aliases[n - 1].1.clone());
            }
            n = n - 1;
        }
        None
    }

    /// Runs a filter command: "all" shows every entry, "none" hides every
    /// entry, an alias toggles the label it names; anything else does
    /// nothing.
    pub fn handle_command(&mut self, cmd: &str)
        ensures
            final(self).aliases@ == old(self).aliases@,
            cmd@ == "all"@ ==> state_view(final(self).state@) == all_set(
                state_view(old(self).state@),
                true,
            ),
            cmd@ == "none"@ ==> state_view(final(self).state@) == all_set(
                state_view(old(self).state@),
                false,
            ),
            cmd@ != "all"@ && cmd@ != "none"@ ==> state_view(final(self).state@) == match alias_of(
                old(self).aliases@,
                cmd@,
            ) {
                Some(l) => toggled(state_view(old(self).state@), l),
                None => state_view(old(self).state@),
            },
    {
        proof {
            reveal_strlit("all");
            reveal_strlit("none");
            assert("all"@.len() != "none"@.len());
        }
        if same_text(cmd, "all") {
            self.set_all(true);
        } else if same_text(cmd, "none") {
            self.set_all(false);
        } else {
            match self.alias(cmd) {
                Some(label) => {
                    self.toggle(label.as_str());
                },
                None => {},
            }
        }
    }

    /// Whether log lines of the service `route_label` are shown: always for
    /// an empty label; "LOG" stands for the client log entry; a label with
    /// no entry is shown.
    pub fn should_show(&self, route_label: &str) -> (r: bool)
        ensures
            r == shown(state_view(self.state@), route_label@),
    {
        if route_label.is_empty() {
            return true;
        }
        let is_log = same_text(route_label, "LOG");
        let found = if is_log {
            find_label(&self.state, "Logs")
        } else {
            find_label(&self.state, route_label)
        };
        proof {
            reveal_strlit("LOG");
            reveal_strlit("Logs");
        }
        match found {
            Some(i) => self.state[i].1,
            None => true,
        }
    }

    /// Flips the flag of the first entry labelled `label`; false, with
    /// nothing changed, when there is none.
    pub fn toggle(&mut self, label: &str) -> (r: bool)
        ensures
            r == (first_index(state_view(old(self).state@), label@, 0) >= 0),
            state_view(final(self).state@) == toggled(state_view(old(self).state@), label@),
            final(self).aliases@ == old(self).aliases@,
    {
        match find_label(&self.state, label) {
            Some(i) => {
                let ghost before = state_view(self.state@);
                let key = self.state[i].0.clone();
                let on = self.state[i].1;
                self.state.set(i, (key, !on));
                assert(state_view(self.state@) =~= toggled(before, label@));
                true
            },
            None => false,
        }
    }

    /// Sets every entry's flag to `on`.
    fn set_all(&mut self, on: bool)
        ensures
            state_view(final(self).state@) == all_set(state_view(old(self).state@), on),
            final(self).aliases@ == old(self).aliases@,
    {
        let ghost before = state_view(self.state@);
        let mut i: usize = 0;
        while i < self.state.len()
            invariant
                i <= self.state@.len(),
                before.len() == self.state@.len(),
                self.aliases@ == old(self).aliases@,
                forall|j: int|
                    #![trigger self.state@[j]]
                    0 <= j < i ==> self.state@[j].0@ == before[j].0 && self.state@[j].1 == on,
                forall|j: int|
                    #![trigger self.state@[j]]
                    i <= j < before.len() ==> self.state@[j].0@ == before[j].0 && self.state@[j].1
                        == before[j].1,
            decreases self.state@.len() - i,
        {
            let key = self.state[i].0.clone();
            self.state.set(i, (key, on));
            assert(self.state@[i as int].0@ == before[i as int].0);
            i = i + 1;
        }
        assert(state_view(self.state@) =~= all_set(before, on));
    }
}

proof fn lemma_first_index_same_keys(
    s: Seq<(Seq<char>, bool)>,
    t: Seq<(Seq<char>, bool)>,
    k: Seq<char>,
    from: int,
)
    requires
        s.len() == t.len(),
        forall|j: int| 0 <= j < s.len() ==> #[trigger] s[j].0 == t[j].0,
    ensures
        first_index(s, k, from) == first_index(t, k, from),
    decreases s.len() - from,
{
    if 0 <= from < s.len() {
        assert(s[from].0 == t[from].0);
        lemma_first_index_same_keys(s, t, k, from + 1);
    }
}

/// Toggling the same label twice restores the filter entries.
pub proof fn law_toggle_twice_restores(s: Seq<(Seq<char>, bool)>, label: Seq<char>)
    ensures
        toggled(toggled(s, label), label) == s,
{
    let once = toggled(s, label);
    lemma_first_index_bounds(s, label, 0);
    lemma_first_index_same_keys(s, once, label, 0);
    let i = first_index(s, label, 0);
    if i >= 0 {
        assert(toggled(once, label) =~= s);
    }
}

/// Toggling a listed label flips what is reported for it.
pub proof fn law_toggle_flips_shown(s: Seq<(Seq<char>, bool)>, label: Seq<char>)
    requires
        label.len() > 0,
        label != client_log_label(),
        first_index(s, label, 0) >= 0,
    ensures
        shown(toggled(s, label), label) == !shown(s, label),
{
    lemma_first_index_bounds(s, label, 0);
    lemma_first_index_same_keys(s, toggled(s, label), label, 0);
}

/// After "none" every listed label is hidden; after "all" every label
/// is shown.
pub proof fn law_all_and_none(s: Seq<(Seq<char>, bool)>, label: Seq<char>)
    ensures
        shown(all_set(s, true), label),
        label.len() > 0 && label != client_log_label() && first_index(s, label, 0) >= 0 ==> !shown(
            all_set(s, false),
            label,
        ),
{
    lemma_first_index_same_keys(s, all_set(s, true), logs_key(), 0);
    lemma_first_index_same_keys(s, all_set(s, true), label, 0);
    lemma_first_index_same_keys(s, all_set(s, false), label, 0);
    lemma_first_index_bounds(s, label, 0);
    lemma_first_index_bounds(s, logs_key(), 0);
}

/// Client log lines ("LOG") are shown exactly when the client log entry
/// is; lines with no service label are always shown.
pub proof fn law_client_logs_follow_logs_entry(s: Seq<(Seq<char>, bool)>)
    ensures
        shown(s, client_log_label()) == shown(s, logs_key()),
        shown(s, seq![]),
{
    reveal_strlit("LOG");
    reveal_strlit("Logs");
    assert(logs_key().len() != client_log_label().len());
}

/// The key "l" always toggles the client log entry.
pub proof fn law_l_toggles_logs(routes: Seq<Route>)
    ensures
        expected_alias(routes, seq!['l']) == Some(logs_key()),
{
    reveal_strlit("Logs");
    let ls = all_labels(routes);
    assert(ls[0] == logs_key());
    assert(initial(ls[0]) == Some('l'));
    let k = seq!['l'];
    assert(k[0] == 'l');
    if count_initial(ls, 'l', ls.len() as int) == 1 {
        lemma_unique_initial(ls, 'l', 0, ls.len() as int);
    }
}

proof fn lemma_last_value_map(ls: Seq<Seq<char>>, f: spec_fn(Seq<char>) -> bool, k: Seq<char>, n: int)
    requires
        0 <= n <= ls.len(),
        ls.subrange(0, n).contains(k),
    ensures
        last_value(ls.map_values(|l: Seq<char>| (l, f(l))), k, n) == Some(f(k)),
    decreases n,
{
    let m = ls.map_values(|l: Seq<char>| (l, f(l)));
    if ls[n - 1] != k {
        let j = choose|j: int| 0 <= j < n && ls.subrange(0, n)[j] == k;
        assert(ls.subrange(0, n - 1)[j] == k);
        lemma_last_value_map(ls, f, k, n - 1);
    }
}

/// Rebuilding twice from the same routes gives the same entries as
/// rebuilding once: every label keeps the flag it had.
pub proof fn law_rebuild_idempotent(prev: Seq<(Seq<char>, bool)>, routes: Seq<Route>)
    ensures
        rebuilt_state(rebuilt_state(prev, routes), routes) == rebuilt_state(prev, routes),
{
    let once = rebuilt_state(prev, routes);
    let ls = route_labels(routes);
    let d = distinct_upto(ls, ls.len() as int);
    let f = |l: Seq<char>| previous_setting(prev, l);
    let body = d.map_values(|l: Seq<char>| (l, previous_setting(prev, l)));
    assert(body =~= d.map_values(|l: Seq<char>| (l, f(l))));
    assert(once =~= body.push((logs_key(), previous_setting(prev, logs_key()))));
    assert forall|j: int| 0 <= j < d.len() implies previous_setting(once, #[trigger] d[j])
        == previous_setting(prev, d[j]) by {
        let k = d[j];
        if k == logs_key() {
            assert(once[once.len() - 1] == (logs_key(), previous_setting(prev, logs_key())));
        } else {
            assert(once[once.len() - 1].0 != k);
            assert(d.subrange(0, d.len() as int) =~= d);
            lemma_last_value_map(d, f, k, d.len() as int);
            assert(once.subrange(0, body.len() as int) =~= body);
            lemma_last_value_prefix(once, body, k, body.len() as int);
        }
    }
    assert(previous_setting(once, logs_key()) == previous_setting(prev, logs_key()));
    assert(rebuilt_state(once, routes) =~= once);
}

proof fn lemma_last_value_prefix(
    a: Seq<(Seq<char>, bool)>,
    b: Seq<(Seq<char>, bool)>,
    k: Seq<char>,
    n: int,
)
    requires
        0 <= n <= b.len(),
        b.len() <= a.len(),
        forall|j: int| 0 <= j < b.len() ==> #[trigger] a[j] == b[j],
    ensures
        last_value(a, k, n) == last_value(b, k, n),
    decreases n,
{
    if n > 0 {
        lemma_last_value_prefix(a, b, k, n - 1);
    }
}

} // verus!
