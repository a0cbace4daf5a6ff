use debugproxy::panels::{log_title, search_count_text, service_entries, spark, spinner_frame};
use debugproxy::routes::Route;

#[test]
fn service_list_shows_keys() {
    let routes = vec![
        Route { prefix: "/agr".into(), target: "https://a".into(), label: "Agriculture".into() },
    ];
    let state = vec![
        ("Agriculture".to_string(), true),
        ("Weather".to_string(), false),
        ("Logs".to_string(), true),
        ("AVeryLongServiceName".to_string(), true),
    ];
    let e = service_entries(&state, &routes);
    assert_eq!(e.len(), 4);
    assert_eq!(e[0].label, " Agriculture  ");
    assert_eq!(e[0].alias, "(agr)");
    assert!(e[0].enabled);
    assert_eq!(e[1].alias, "(w)");
    assert!(!e[1].enabled);
    assert_eq!(e[2].alias, "(l)");
    assert_eq!(e[3].label, " AVeryLongServiceName");
    assert_eq!(e[3].alias, "(a)");
}

#[test]
fn spinner_cycles() {
    assert_eq!(spinner_frame(0), '⠋');
    assert_eq!(spinner_frame(3), '⠙');
    assert_eq!(spinner_frame(20), '⠋');
    assert_eq!(spinner_frame(19), '⠏');
}

#[test]
fn spark_bounces() {
    let s = spark(25, 0);
    assert_eq!(s.column, 0);
    assert_eq!(s.spark_row.len(), 25);
    assert_eq!(s.spark_row[0], '·');
    assert!(s.trail_row.iter().all(|c| *c == ' '));
    assert!(s.spark_on_top);
    let t = spark(25, 6);
    assert_eq!(t.column, 2);
    assert_eq!(t.spark_row[2], '✳');
    assert_eq!(t.trail_row[1], '·');
    let back = spark(25, 3 * 26);
    assert_eq!(back.column, 22);
    assert_eq!(back.trail_row[23], '·');
    assert!(!spark(25, 9).spark_on_top);
    assert_eq!(spark(2, 0).spark_row.len(), 6);
}

#[test]
fn counters() {
    assert_eq!(search_count_text(0, 0, 0), "(type to search)");
    assert_eq!(search_count_text(3, 0, 0), "(0 matches)");
    assert_eq!(search_count_text(3, 5, 1), "(2/5 matches)");
    assert_eq!(search_count_text(3, 5, 9), "(5/5 matches)");
    assert_eq!(log_title(true, true, 4, 0), " logs · filtered 4 · following ");
    assert_eq!(log_title(true, false, 4, 1), " logs · filtered 2/4 ");
    assert_eq!(log_title(false, true, 0, 0), " logs · following ");
    assert_eq!(log_title(false, false, 0, 0), " logs · click or drag to copy ");
}
