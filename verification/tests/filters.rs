use debugproxy::filters::Filters;
use debugproxy::routes::Route;

fn route(p: &str, l: &str) -> Route {
    Route { prefix: p.to_string(), target: "https://t".to_string(), label: l.to_string() }
}

fn sample() -> Vec<Route> {
    vec![route("/agr", "Agriculture"), route("/wth", "Weather"), route("/wx", "Weather")]
}

#[test]
fn new_lists_labels_once_then_logs() {
    let f = Filters::new(&sample());
    let labels: Vec<&str> = f.state.iter().map(|(l, _)| l.as_str()).collect();
    assert_eq!(labels, vec!["Agriculture", "Weather", "Logs"]);
    assert!(f.state.iter().all(|(_, on)| *on));
}

#[test]
fn aliases_toggle_services() {
    let mut f = Filters::new(&sample());
    assert_eq!(f.alias("agr"), Some("Agriculture".to_string()));
    assert_eq!(f.alias("a"), Some("Agriculture".to_string()));
    assert_eq!(f.alias("l"), Some("Logs".to_string()));
    assert_eq!(f.alias("wx"), Some("Weather".to_string()));
    assert_eq!(f.alias("zzz"), None);
    f.handle_command("agr");
    assert!(!f.should_show("Agriculture"));
    f.handle_command("a");
    assert!(f.should_show("Agriculture"));
}

#[test]
fn all_and_none() {
    let mut f = Filters::new(&sample());
    f.handle_command("none");
    assert!(!f.should_show("Weather"));
    assert!(!f.should_show("LOG"));
    assert!(f.should_show(""));
    assert!(f.should_show("Unknown"));
    f.handle_command("all");
    assert!(f.should_show("Weather"));
    assert!(f.should_show("LOG"));
}

#[test]
fn toggle_twice_restores() {
    let mut f = Filters::new(&sample());
    assert!(f.toggle("Weather"));
    assert!(!f.should_show("Weather"));
    assert!(f.toggle("Weather"));
    assert!(f.should_show("Weather"));
    assert!(!f.toggle("Nope"));
}

#[test]
fn rebuild_keeps_settings() {
    let mut f = Filters::new(&sample());
    f.toggle("Weather");
    let mut routes = sample();
    routes.push(route("/sub", "Subscription"));
    f.rebuild(&routes);
    assert!(!f.should_show("Weather"));
    assert!(f.should_show("Subscription"));
    let labels: Vec<&str> = f.state.iter().map(|(l, _)| l.as_str()).collect();
    assert_eq!(labels, vec!["Agriculture", "Weather", "Subscription", "Logs"]);
    assert_eq!(f.alias("s"), Some("Subscription".to_string()));
}
