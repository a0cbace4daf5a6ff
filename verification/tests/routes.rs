use debugproxy::routes::{add_route, find_route, get_routes, remove_route, Route};

fn route(p: &str, t: &str, l: &str) -> Route {
    Route { prefix: p.to_string(), target: t.to_string(), label: l.to_string() }
}

#[test]
fn all_routes_are_statics_then_dynamic() {
    let statics = vec![route("/agr", "https://a", "Agriculture")];
    let dynamic = vec![route("/wth", "https://w", "Weather")];
    let all = get_routes(&statics, &dynamic);
    let prefixes: Vec<&str> = all.iter().map(|r| r.prefix.as_str()).collect();
    assert_eq!(prefixes, vec!["/agr", "/wth"]);
}

#[test]
fn add_normalizes_and_refuses_duplicates() {
    let statics = vec![route("/agr", "https://a", "Agriculture")];
    let mut dynamic = Vec::new();
    let r = add_route(&statics, &mut dynamic, "sub", "https://s", "Subscription").unwrap();
    assert_eq!(r.prefix, "/sub");
    assert_eq!(dynamic.len(), 1);
    let again = add_route(&statics, &mut dynamic, "/sub", "https://other", "X");
    assert_eq!(again.unwrap_err(), "Rota \"/sub\" já existe");
    let clash = add_route(&statics, &mut dynamic, "/agr", "https://other", "X");
    assert_eq!(clash.unwrap_err(), "Rota \"/agr\" já existe");
    assert_eq!(dynamic.len(), 1);
}

#[test]
fn remove_refuses_static_and_unknown_and_undoes_add() {
    let statics = vec![route("/agr", "https://a", "Agriculture")];
    let mut dynamic = vec![route("/old", "https://o", "Old")];
    assert_eq!(remove_route(&statics, &mut dynamic, "/agr").unwrap_err(), "Rota \"/agr\" é fixa, não pode ser removida");
    assert_eq!(remove_route(&statics, &mut dynamic, "/nope").unwrap_err(), "Rota \"/nope\" não encontrada");
    add_route(&statics, &mut dynamic, "/new", "https://n", "New").unwrap();
    assert_eq!(remove_route(&statics, &mut dynamic, "/new"), Ok(()));
    let prefixes: Vec<&str> = dynamic.iter().map(|r| r.prefix.as_str()).collect();
    assert_eq!(prefixes, vec!["/old"]);
}

#[test]
fn find_prefers_longest_prefix() {
    let routes = vec![route("/api", "https://a", "A"), route("/api/v2", "https://b", "B"), route("/x", "https://x", "X")];
    assert_eq!(find_route(&routes, "/api/v2/items").unwrap().label, "B");
    assert_eq!(find_route(&routes, "/api/v1").unwrap().label, "A");
    assert_eq!(find_route(&routes, "/api").unwrap().label, "A");
    assert!(find_route(&routes, "/apix").is_none());
    assert!(find_route(&routes, "/y").is_none());
}

#[test]
fn added_route_is_found() {
    let statics = vec![route("/api", "https://a", "A")];
    let mut dynamic = Vec::new();
    add_route(&statics, &mut dynamic, "/api/new", "https://n", "N").unwrap();
    let all = get_routes(&statics, &dynamic);
    assert_eq!(find_route(&all, "/api/new/x").unwrap().label, "N");
}
