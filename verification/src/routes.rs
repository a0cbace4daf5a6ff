//! The routing table: static routes from the configuration file followed by
//! dynamic routes added at run time; lookup by longest matching prefix.
use vstd::prelude::*;
use vstd::utf8::encode_utf8;

use crate::text::{chars_of, concat3, owned, starts_with_chars};

verus! {

/// A proxy route: requests whose path starts with `prefix` are forwarded
/// to `target`; `label` names the service in logs and filters.
#[derive(Debug)]
pub struct Route {
    pub prefix: String,
    pub target: String,
    pub label: String,
}

/// Length in bytes of the UTF-8 encoding of `s`, as `str::len` reports it.
pub open spec fn byte_len(s: Seq<char>) -> usize {
    encode_utf8(s).len() as usize
}

/// Whether a request path belongs to a route with this prefix: it is the
/// prefix itself or continues it with a `/`.
pub open spec fn prefix_matches(prefix: Seq<char>, path: Seq<char>) -> bool {
    path == prefix || prefix.push('/').is_prefix_of(path)
}

/// Route `i` is the one a lookup of `path` picks: it matches, no earlier
/// matching route has a prefix at least as long, and no later one a longer.
pub open spec fn is_best_match(routes: Seq<Route>, path: Seq<char>, i: int) -> bool {
    &&& 0 <= i < routes.len()
    &&& prefix_matches(routes[i].prefix@, path)
    &&& forall|j: int|
        0 <= j < i && prefix_matches(#[trigger] routes[j].prefix@, path) ==> byte_len(
            routes[j].prefix@,
        ) < byte_len(routes[i].prefix@)
    &&& forall|j: int|
        i < j < routes.len() && prefix_matches(#[trigger] routes[j].prefix@, path) ==> byte_len(
            routes[j].prefix@,
        ) <= byte_len(routes[i].prefix@)
}

/// Whether some route in `routes` has exactly this prefix.
pub open spec fn has_prefix(routes: Seq<Route>, prefix: Seq<char>) -> bool {
    exists|i: int| 0 <= i < routes.len() && #[trigger] routes[i].prefix@ == prefix
}

/// The prefix as stored: a leading `/` is added when missing.
pub open spec fn normalized_prefix(prefix: Seq<char>) -> Seq<char> {
    if prefix.len() > 0 && prefix[0] == '/' {
        prefix
    } else {
        seq!['/'] + prefix
    }
}

/// A copy of a route.
pub fn copy_route(r: &Route) -> (c: Route)
    ensures
        c == *r,
{
    Route { prefix: r.prefix.clone(), target: r.target.clone(), label: r.label.clone() }
}

/// A copy of a list of routes.
pub fn copy_routes(rs: &Vec<Route>) -> (c: Vec<Route>)
    ensures
        c@ == rs@,
{
    let mut c: Vec<Route> = Vec::new();
    let mut i: usize = 0;
    while i < rs.len()
        invariant
            i <= rs@.len(),
            c@ == rs@.subrange(0, i as int),
        decreases rs@.len() - i,
    {
        c.push(copy_route(&rs[i]));
        i = i + 1;
        assert(c@ =~= rs@.subrange(0, i as int));
    }
    assert(rs@.subrange(0, rs@.len() as int) =~= rs@);
    c
}

/// All routes: the static ones, then the dynamic ones.
pub fn get_routes(statics: &Vec<Route>, dynamic: &Vec<Route>) -> (all: Vec<Route>)
    ensures
        all@ == statics@ + dynamic@,
{
    let mut all = copy_routes(statics);
    let mut i: usize = 0;
    while i < dynamic.len()
        invariant
            i <= dynamic@.len(),
            all@ == statics@ + dynamic@.subrange(0, i as int),
        decreases dynamic@.len() - i,
    {
        all.push(copy_route(&dynamic[i]));
        i = i + 1;
        assert(all@ =~= statics@ + dynamic@.subrange(0, i as int));
    }
    assert(dynamic@.subrange(0, dynamic@.len() as int) =~= dynamic@);
    all
}

/// Index of the first route in `routes` whose prefix is exactly `prefix`.
fn position_of_prefix(routes: &Vec<Route>, prefix: &String) -> (r: Option<usize>)
    ensures
        match r {
            Some(i) => i < routes@.len() && routes@[i as int].prefix@ == prefix@ && forall|j: int|
                0 <= j < i ==> #[trigger] routes@[j].prefix@ != prefix@,
            None => !has_prefix(routes@, prefix@),
        },
{
    let mut i: usize = 0;
    while i < routes.len()
        invariant
            i <= routes@.len(),
            forall|j: int| 0 <= j < i ==> #[trigger] routes@[j].prefix@ != prefix@,
        decreases routes@.len() - i,
    {
        if routes[i].prefix == *prefix {
            return Some(i);
        }
        i = i + 1;
    }
    None
}

/// Adds a dynamic route. The prefix gets a leading `/` when it lacks one.
/// Refused, leaving `dynamic` unchanged, when a static or dynamic route
/// already has that prefix; otherwise the new route is appended to
/// `dynamic` and returned.
pub fn add_route(
    statics: &Vec<Route>,
    dynamic: &mut Vec<Route>,
    prefix: &str,
    target: &str,
    label: &str,
) -> (r: Result<Route, String>)
    ensures
        match r {
            Ok(route) => {
                &&& !has_prefix(statics@ + old(dynamic)@, normalized_prefix(prefix@))
                &&& route.prefix@ == normalized_prefix(prefix@)
                &&& route.target@ == target@
                &&& route.label@ == label@
                &&& final(dynamic)@ == old(dynamic)@.push(route)
            },
            Err(msg) => {
                &&& has_prefix(statics@ + old(dynamic)@, normalized_prefix(prefix@))
                &&& msg@ == "Rota \""@ + normalized_prefix(prefix@) + "\" já existe"@
                &&& final(dynamic)@ == old(dynamic)@
            },
        },
{
    let chars = chars_of(prefix);
    let p: String = if chars.len() > 0 && chars[0] == '/' {
        owned(prefix)
    } else {
        concat3("/", prefix, "")
    };
    proof {
        reveal_strlit("/");
        reveal_strlit("");
        assert(p@ == normalized_prefix(prefix@));
    }
    let all = get_routes(statics, dynamic);
    match position_of_prefix(&all, &p) {
        Some(i) => {
            assert(all@[i as int].prefix@ == normalized_prefix(prefix@));
            Err(concat3("Rota \"", p.as_str(), "\" já existe"))
        },
        None => {
            let route = Route { prefix: p, target: owned(target), label: owned(label) };
            dynamic.push(copy_route(&route));
            Ok(route)
        },
    }
}

/// Removes a dynamic route by its exact prefix. Refused when a static
/// route has that prefix, or when no dynamic route has it; otherwise the
/// first dynamic route with that prefix is removed.
pub fn remove_route(statics: &Vec<Route>, dynamic: &mut Vec<Route>, prefix: &str) -> (r: Result<
    (),
    String,
>)
    ensures
        match r {
            Ok(()) => {
                &&& !has_prefix(statics@, prefix@)
                &&& exists|i: int|
                    0 <= i < old(dynamic)@.len() && old(dynamic)@[i].prefix@ == prefix@
                        && (forall|j: int|
                        0 <= j < i ==> #[trigger] old(dynamic)@[j].prefix@ != prefix@)
                        && final(dynamic)@ == old(dynamic)@.remove(i)
            },
            Err(msg) => {
                &&& final(dynamic)@ == old(dynamic)@
                &&& has_prefix(statics@, prefix@) ==> msg@ == "Rota \""@ + prefix@
                    + "\" é fixa, não pode ser removida"@
                &&& !has_prefix(statics@, prefix@) ==> !has_prefix(old(dynamic)@, prefix@)
                    && msg@ == "Rota \""@ + prefix@ + "\" não encontrada"@
            },
        },
{
    let p = owned(prefix);
    if position_of_prefix(statics, &p).is_some() {
        return Err(concat3("Rota \"", prefix, "\" é fixa, não pode ser removida"));
    }
    match position_of_prefix(dynamic, &p) {
        None => Err(concat3("Rota \"", prefix, "\" não encontrada")),
        Some(i) => {
            dynamic.remove(i);
            Ok(())
        },
    }
}

/// Whether `path` belongs to the route with this prefix.
fn route_matches(prefix: &String, path: &[char]) -> (r: bool)
    ensures
        r == prefix_matches(prefix@, path@),
{
    let mut p = chars_of(prefix.as_str());
    let exact = p.len() == path.len() && starts_with_chars(path, &p);
    proof {
        if p@.len() == path@.len() && p@.is_prefix_of(path@) {
            assert(p@ =~= path@);
        }
    }
    p.push('/');
    exact || starts_with_chars(path, &p)
}

/// The route a request path is forwarded through: among the routes whose
/// prefix the path equals or continues with a `/`, the one with the
/// longest prefix (in bytes), the earliest of those on a tie; `None` when
/// no route matches.
pub fn find_route(routes: &Vec<Route>, pathname: &str) -> (r: Option<Route>)
    ensures
        match r {
            Some(route) => exists|i: int|
                is_best_match(routes@, pathname@, i) && route == #[trigger] routes@[i],
            None => forall|i: int|
                0 <= i < routes@.len() ==> !prefix_matches(#[trigger] routes@[i].prefix@, pathname@),
        },
{
    let path = chars_of(pathname);
    let mut best: Option<usize> = None;
    let mut best_len: usize = 0;
    let mut i: usize = 0;
    while i < routes.len()
        invariant
            i <= routes@.len(),
            path@ == pathname@,
            match best {
                Some(b) => {
                    &&& b < i
                    &&& prefix_matches(routes@[b as int].prefix@, pathname@)
                    &&& best_len == byte_len(routes@[b as int].prefix@)
                    &&& forall|j: int|
                        0 <= j < b && prefix_matches(#[trigger] routes@[j].prefix@, pathname@)
                            ==> byte_len(routes@[j].prefix@) < best_len
                    &&& forall|j: int|
                        b < j < i && prefix_matches(#[trigger] routes@[j].prefix@, pathname@)
                            ==> byte_len(routes@[j].prefix@) <= best_len
                },
                None => forall|j: int|
                    0 <= j < i ==> !prefix_matches(#[trigger] routes@[j].prefix@, pathname@),
            },
        decreases routes@.len() - i,
    {
        if route_matches(&routes[i].prefix, &path) {
            let len = routes[i].prefix.as_str().len();
            assert(len == byte_len(routes@[i as int].prefix@));
            assert(prefix_matches(routes@[i as int].prefix@, pathname@));
            match best {
                None => {
                    best = Some(i);
                    best_len = len;
                },
                Some(_) => {
                    if len > best_len {
                        best = Some(i);
                        best_len = len;
                    }
                },
            }
        }
        i = i + 1;
    }
    match best {
        Some(b) => {
            assert(is_best_match(routes@, pathname@, b as int));
            Some(copy_route(&routes[b]))
        },
        None => None,
    }
}

/// UTF-8 encoding distributes over concatenation.
pub proof fn lemma_encode_concat(a: Seq<char>, b: Seq<char>)
    ensures
        encode_utf8(a + b) == encode_utf8(a) + encode_utf8(b),
    decreases a.len(),
{
    if a.len() == 0 {
        assert(a + b =~= b);
        assert(encode_utf8(a) =~= Seq::<u8>::empty());
        assert(encode_utf8(a) + encode_utf8(b) =~= encode_utf8(b));
    } else {
        assert((a + b).drop_first() =~= a.drop_first() + b);
        lemma_encode_concat(a.drop_first(), b);
        assert(encode_utf8(a + b) =~= encode_utf8(a) + encode_utf8(b));
    }
}

/// A string that continues `a` with at least one more character has a
/// longer UTF-8 encoding.
pub proof fn lemma_encode_longer(a: Seq<char>, b: Seq<char>)
    requires
        a.is_prefix_of(b),
        a.len() < b.len(),
    ensures
        encode_utf8(a).len() < encode_utf8(b).len(),
{
    let rest = b.subrange(a.len() as int, b.len() as int);
    assert(b =~= a + rest);
    lemma_encode_concat(a, rest);
    assert(rest.len() > 0);
    assert(encode_utf8(rest).len() > 0) by {
        reveal_with_fuel(encode_utf8, 1);
        assert(encode_utf8(rest) == vstd::utf8::encode_scalar(rest[0] as u32) + encode_utf8(
            rest.drop_first(),
        ));
    }
}

/// A newly added route is the one found for its own prefix: with no other
/// route holding that prefix, every other route matching it has a shorter
/// prefix, so the lookup picks the new (last) route and no other.
pub proof fn law_added_route_is_found(statics: Seq<Route>, before: Seq<Route>, route: Route)
    requires
        !has_prefix(statics + before, route.prefix@),
        encode_utf8(route.prefix@).len() <= usize::MAX,
    ensures
        ({
            let all = statics + before.push(route);
            &&& is_best_match(all, route.prefix@, all.len() - 1)
            &&& all[all.len() - 1] == route
            &&& forall|i: int| is_best_match(all, route.prefix@, i) ==> i == all.len() - 1
        }),
{
    let all = statics + before.push(route);
    let last = all.len() - 1;
    let p = route.prefix@;
    assert(all =~= (statics + before).push(route));
    assert forall|j: int| 0 <= j < last && prefix_matches(#[trigger] all[j].prefix@, p) implies byte_len(
        all[j].prefix@,
    ) < byte_len(p) by {
        assert(all[j] == (statics + before)[j]);
        assert(all[j].prefix@ != p);
        let q = all[j].prefix@;
        assert(q.is_prefix_of(q.push('/')));
        assert(q.is_prefix_of(p));
        lemma_encode_longer(q, p);
    }
    assert(prefix_matches(all[last].prefix@, p));
    assert(is_best_match(all, p, last));
    assert forall|i: int| is_best_match(all, p, i) implies i == last by {
        if i < last {
            assert(byte_len(all[i].prefix@) < byte_len(p));
        }
    }
}

/// Removing the prefix of a route just added restores the dynamic routes
/// as they were before the addition.
pub proof fn law_remove_undoes_add(statics: Seq<Route>, before: Seq<Route>, route: Route)
    requires
        !has_prefix(statics + before, route.prefix@),
    ensures
        !has_prefix(statics, route.prefix@),
        has_prefix(before.push(route), route.prefix@),
        forall|i: int|
            0 <= i < before.push(route).len() && before.push(route)[i].prefix@ == route.prefix@ && (
            forall|j: int| 0 <= j < i ==> #[trigger] before.push(route)[j].prefix@ != route.prefix@)
                ==> before.push(route).remove(i) == before,
{
    let after = before.push(route);
    let p = route.prefix@;
    assert forall|j: int| 0 <= j < statics.len() implies #[trigger] statics[j].prefix@ != p by {
        assert((statics + before)[j] == statics[j]);
    }
    assert(after[before.len() as int] == route);
    assert forall|i: int|
        0 <= i < after.len() && after[i].prefix@ == p && (forall|j: int|
            0 <= j < i ==> #[trigger] after[j].prefix@ != p) implies after.remove(i) == before by {
        if i < before.len() {
            assert((statics + before)[statics.len() + i] == before[i]);
            assert(false);
        }
        assert(after.remove(i) =~= before);
    }
}

/// Once a route is added, adding the same prefix again (with or without
/// its leading `/`) is refused.
pub proof fn law_duplicate_add_refused(statics: Seq<Route>, before: Seq<Route>, route: Route, again: Seq<char>)
    requires
        normalized_prefix(again) == route.prefix@,
    ensures
        has_prefix(statics + before.push(route), normalized_prefix(route.prefix@)),
        has_prefix(statics + before.push(route), normalized_prefix(again)),
{
    let all = statics + before.push(route);
    assert(all[all.len() - 1] == route);
    assert(normalized_prefix(route.prefix@) == route.prefix@);
}

} // verus!
