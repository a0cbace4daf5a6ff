use debugproxy::messages::{
    cap_error, client_log_line, exceeds_cap, failure_line, incoming_line, no_route_line, request_lines,
    response_lines, response_too_large, route_summary, timeout_line,
};

#[test]
fn exchange_lines() {
    assert_eq!(
        no_route_line("10:00:00", "abc123", "GET", "/x?y=1"),
        "\x1b[2m[10:00:00]\x1b[0m \x1b[1mabc123\x1b[0m ⚠  NO ROUTE: GET /x?y=1"
    );
    assert_eq!(route_summary("/agr", "Agriculture"), "/agr → Agriculture");
    assert_eq!(
        incoming_line("10:00:00", "abc123", "\x1b[32m", "GET", "/agr/x"),
        "\x1b[2m[10:00:00]\x1b[0m \x1b[1mabc123\x1b[0m \x1b[32mGET /agr/x\x1b[0m"
    );
}

#[test]
fn request_log_with_and_without_body() {
    let no_body = request_lines("t", "id", "GET", "/a", "https://x/a", "", b"", "C");
    assert_eq!(no_body, vec!["\x1b[2m[t]\x1b[0m \x1b[1mid\x1b[0m", "  CGET\x1b[0m /a", "\x1b[2m  → https://x/a\x1b[0m"]);
    let with_body = request_lines("t", "id", "POST", "/a", "https://x/a", "text/plain; charset=utf-8", b"hi\nthere", "C");
    assert_eq!(with_body.len(), 5);
    assert_eq!(with_body[3], "\x1b[2m  Req Body (text/plain):\x1b[0m");
    assert_eq!(with_body[4], "  hi\n  there");
}

#[test]
fn response_log() {
    let r = response_lines(200, b"ok", "text/plain", 45, "\x1b[32m", "");
    assert_eq!(
        r,
        vec![
            "  \x1b[1mResponse:\x1b[0m \x1b[32m200\x1b[0m \x1b[2m45ms\x1b[0m",
            "\x1b[2m  Res Body (text/plain):\x1b[0m",
            "  ok",
            "",
        ]
    );
    let empty = response_lines(204, b"", "", 3, "G", "");
    assert_eq!(empty, vec!["  \x1b[1mResponse:\x1b[0m G204\x1b[0m \x1b[2m3ms\x1b[0m", ""]);
    assert!(!response_too_large(10 * 1024 * 1024));
    assert!(response_too_large(10 * 1024 * 1024 + 1));
}

#[test]
fn failures_and_client_lines() {
    assert_eq!(failure_line("boom", 12), "  \x1b[31mERROR:\x1b[0m boom \x1b[2m12ms\x1b[0m\n");
    assert_eq!(timeout_line(120000), "  \x1b[31mTIMEOUT\x1b[0m \x1b[2m120000ms\x1b[0m\n");
    assert_eq!(client_log_line("t", "hello"), "\x1b[2m[t]\x1b[0m \x1b[36mLOG\x1b[0m hello");
    let long = "é".repeat(600);
    let line = client_log_line("t", &long);
    assert_eq!(line.chars().filter(|c| *c == 'é').count(), 500);
}

#[test]
fn buffer_cap() {
    assert!(!exceeds_cap(10, 5, 15));
    assert!(exceeds_cap(10, 6, 15));
    assert!(exceeds_cap(20, 0, 15));
    assert_eq!(cap_error(64 * 1024 * 1024), "response body exceeded 64MB buffer cap");
}
