use unicom::ratelimit::RateLimiter;

const SEC: u128 = 1_000_000_000;

#[test]
fn allows_up_to_the_limit_in_a_window() {
    let mut r = RateLimiter::new(3, 60);
    assert!(r.check_at("ip", 0));
    assert!(r.check_at("ip", SEC));
    assert!(r.check_at("ip", 2 * SEC));
    assert!(!r.check_at("ip", 3 * SEC));
    assert!(!r.check_at("ip", 59 * SEC));
    assert!(r.check_at("other", 59 * SEC));
}

#[test]
fn window_resets() {
    let mut r = RateLimiter::new(1, 60);
    assert!(r.check_at("k", 0));
    assert!(!r.check_at("k", 30 * SEC));
    assert!(r.check_at("k", 60 * SEC));
    assert!(!r.check_at("k", 61 * SEC));
}

#[test]
fn cleanup_does_not_change_answers() {
    let mut a = RateLimiter::new(2, 10);
    let mut b = RateLimiter::new(2, 10);
    for t in [0u128, 1, 2, 25] {
        a.check_at("x", t * SEC);
        b.check_at("x", t * SEC);
    }
    a.cleanup_at(25 * SEC);
    for t in [26u128, 27, 28, 40] {
        assert_eq!(a.check_at("x", t * SEC), b.check_at("x", t * SEC));
    }
}

#[test]
fn zero_limit_refuses() {
    let mut r = RateLimiter::new(0, 60);
    assert!(!r.check_at("k", 0));
}

#[test]
fn live_clock() {
    let mut r = RateLimiter::new(10, 60);
    for _ in 0..10 {
        assert!(r.check("1.2.3.4"));
    }
    assert!(!r.check("1.2.3.4"));
    r.cleanup();
    assert!(!r.check("1.2.3.4"));
}
