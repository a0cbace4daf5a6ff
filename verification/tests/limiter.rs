use debugproxy::limiter::{RateLimiter, AI_REQUESTS_PER_WINDOW, AI_WINDOW_MS};

#[test]
fn ten_per_minute_per_client() {
    let mut l = RateLimiter::new(AI_REQUESTS_PER_WINDOW, AI_WINDOW_MS);
    for i in 0..10 {
        assert!(l.check("1.2.3.4", 1000 + i));
    }
    assert!(!l.check("1.2.3.4", 2000));
    assert!(l.check("5.6.7.8", 2000));
    assert!(!l.check("1.2.3.4", 60999));
    assert!(l.check("1.2.3.4", 61000));
}
