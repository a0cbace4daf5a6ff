use debugproxy::state::TransferTracker;

#[test]
fn newest_first_and_bounded() {
    let mut t = TransferTracker::new(2);
    t.start_transfer("a", "GET", "/x", "X", 1);
    t.start_transfer("b", "POST", "/y", "Y", 2);
    t.start_transfer("c", "PUT", "/z", "Z", 3);
    let s = t.snapshot();
    let ids: Vec<&str> = s.iter().map(|r| r.id.as_str()).collect();
    assert_eq!(ids, vec!["c", "b"]);
    assert_eq!(s[0].status, None);
    assert_eq!(s[0].start_ms, 3);
}

#[test]
fn end_updates_first_matching_record_only() {
    let mut t = TransferTracker::new(10);
    t.start_transfer("a", "GET", "/x", "X", 1);
    t.start_transfer("b", "GET", "/y", "Y", 2);
    t.end_transfer("a", 200, 45, Some(10));
    t.end_transfer("zzz", 500, 1, None);
    let s = t.snapshot();
    assert_eq!(s[0].id, "b");
    assert_eq!(s[0].status, None);
    assert_eq!(s[1].status, Some(200));
    assert_eq!(s[1].duration_ms, Some(45));
    assert_eq!(s[1].size, Some(10));
}

#[test]
fn transfers_can_be_cleared() {
    let mut t = TransferTracker::new(3);
    t.start_transfer("a", "GET", "/x", "X", 1);
    t.clear();
    assert!(t.snapshot().is_empty());
}
