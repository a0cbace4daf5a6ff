use debugproxy::config::{parse_port, resolve_port, Config};

#[test]
fn port_parsing_follows_u16() {
    assert_eq!(parse_port("8080"), Some(8080));
    assert_eq!(parse_port("+80"), Some(80));
    assert_eq!(parse_port("0065535"), Some(65535));
    assert_eq!(parse_port("65536"), None);
    assert_eq!(parse_port(""), None);
    assert_eq!(parse_port("+"), None);
    assert_eq!(parse_port("-1"), None);
    assert_eq!(parse_port(" 80"), None);
    assert_eq!(parse_port("8a"), None);
}

#[test]
fn port_resolution_order() {
    let mut cfg = Config::empty();
    assert_eq!(resolve_port(None, &cfg), 8888);
    cfg.port = Some(9000);
    assert_eq!(resolve_port(None, &cfg), 9000);
    assert_eq!(resolve_port(Some("7000"), &cfg), 7000);
    assert_eq!(resolve_port(Some("junk"), &cfg), 9000);
    assert_eq!(resolve_port(Some("junk"), &Config::empty()), 8888);
}
