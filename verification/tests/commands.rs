use debugproxy::commands::{distinct_routes, is_log_mode, parse_api_command, parse_view_command, Command};

#[test]
fn view_commands() {
    assert!(matches!(parse_view_command("   "), Command::Empty));
    match parse_view_command("ADD /sub https://s My Service") {
        Command::AddRoute { prefix, target, label } => {
            assert_eq!(prefix, "/sub");
            assert_eq!(target, "https://s");
            assert_eq!(label, "My Service");
        }
        _ => panic!("expected add"),
    }
    match parse_view_command("add /sub https://s") {
        Command::AddRoute { label, .. } => assert_eq!(label, "SUB"),
        _ => panic!("expected add"),
    }
    assert!(matches!(parse_view_command("add /sub"), Command::Filter { .. }));
    match parse_view_command("rm /sub") {
        Command::RemoveRoute { prefix } => assert_eq!(prefix, "/sub"),
        _ => panic!("expected rm"),
    }
    match parse_view_command("saver Rain") {
        Command::Saver { scene } => assert_eq!(scene, Some("rain".to_string())),
        _ => panic!("expected saver"),
    }
    assert!(matches!(parse_view_command("saver"), Command::Saver { scene: None }));
    match parse_view_command("search  two  words ") {
        Command::Search { term } => assert_eq!(term, "two words"),
        _ => panic!("expected search"),
    }
    match parse_view_command("agr") {
        Command::Filter { cmd } => assert_eq!(cmd, "agr"),
        _ => panic!("expected filter"),
    }
    assert!(matches!(parse_view_command("monitor"), Command::Filter { .. }));
}

#[test]
fn api_commands() {
    assert!(matches!(parse_api_command("monitor"), Command::Monitor));
    assert!(matches!(parse_api_command("ultra off"), Command::UltraOff));
    match parse_api_command("ultra /a /b") {
        Command::UltraOn { routes } => assert_eq!(routes, vec!["/a".to_string(), "/b".to_string()]),
        _ => panic!("expected ultra"),
    }
    match parse_api_command("logmode session") {
        Command::LogMode { mode } => assert_eq!(mode, "session"),
        _ => panic!("expected logmode"),
    }
    assert!(matches!(parse_api_command("search x"), Command::Filter { .. }));
    assert!(is_log_mode("day"));
    assert!(is_log_mode("session"));
    assert!(!is_log_mode("week"));
}

#[test]
fn ultra_routes_listed_once() {
    let v = vec!["/a".to_string(), "/b".to_string(), "/a".to_string()];
    assert_eq!(distinct_routes(&v), vec!["/a".to_string(), "/b".to_string()]);
    assert!(distinct_routes(&vec![]).is_empty());
}
