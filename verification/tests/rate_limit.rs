use spotisub::cfg::IpAddress;
use spotisub::rate_limit::RateLimit;
use spotisub::rate_limit::RateLimits;
use spotisub::rate_limit::RATE_LIMIT;
use spotisub::rate_limit::RATE_WINDOW_SECS;
use std::time::Duration;
use std::time::Instant;

#[test]
fn a_default_limit_has_counted_nothing() {
    let limit = RateLimit::default();
    assert_eq!(limit.count(), 0);
    assert_eq!(RATE_LIMIT, 10);
    assert_eq!(RATE_WINDOW_SECS, 60 * 60 * 24);
}

#[test]
fn ten_attempts_are_allowed_and_the_eleventh_is_not() {
    let mut limit = RateLimit::default();
    for n in 1..=10u8 {
        assert!(limit.allow_after(5, Instant::now()));
        assert_eq!(limit.count(), n);
    }
    assert!(!limit.allow_after(5, Instant::now()));
    assert_eq!(limit.count(), 11);
    assert!(!limit.allow_after(RATE_WINDOW_SECS - 1, Instant::now()));
    assert_eq!(limit.count(), 12);
}

#[test]
fn a_new_window_starts_the_count_anew() {
    let mut limit = RateLimit::default();
    for _ in 0..20 {
        limit.allow_after(0, Instant::now());
    }
    assert_eq!(limit.count(), 20);
    assert!(limit.allow_after(RATE_WINDOW_SECS, Instant::now()));
    assert_eq!(limit.count(), 1);
    assert!(limit.allow_after(RATE_WINDOW_SECS + 100, Instant::now()));
    assert_eq!(limit.count(), 1);
}

#[test]
fn the_count_stops_at_255() {
    let mut limit = RateLimit::default();
    for _ in 0..300 {
        limit.allow_after(1, Instant::now());
    }
    assert_eq!(limit.count(), 255);
    assert!(!limit.allow_after(1, Instant::now()));
    assert_eq!(limit.count(), 255);
}

#[test]
fn attempts_made_now_are_counted() {
    let mut limit = RateLimit::default();
    for n in 1..=10u8 {
        assert!(limit.allow());
        assert_eq!(limit.count(), n);
    }
    assert!(!limit.allow());
}

#[test]
fn each_address_has_its_own_count() {
    let mut limits = RateLimits::new();
    let a = IpAddress::V4(10, 0, 0, 1);
    let b = IpAddress::V4(10, 0, 0, 2);
    let c = IpAddress::V6(0x0a00_0001);
    for _ in 0..10 {
        assert!(limits.allow(a));
    }
    assert!(!limits.allow(a));
    assert!(limits.allow(b));
    assert!(limits.allow(c));
    for _ in 0..9 {
        assert!(limits.allow(c));
    }
    assert!(!limits.allow(c));
    assert!(limits.allow(b));
}

#[test]
fn the_window_starts_anew_only_when_it_is_over() {
    let mut limit = RateLimit::default();
    let began = limit.window_start();
    let later = began + Duration::from_secs(10);
    assert!(limit.allow_after(10, later));
    assert_eq!(limit.window_start(), began);
    assert!(limit.allow_after(RATE_WINDOW_SECS - 1, later));
    assert_eq!(limit.window_start(), began);
    assert_eq!(limit.count(), 2);
    let next_day = began + Duration::from_secs(RATE_WINDOW_SECS);
    assert!(limit.allow_after(RATE_WINDOW_SECS, next_day));
    assert_eq!(limit.window_start(), next_day);
    assert_eq!(limit.count(), 1);
    assert!(limit.allow_after(3, next_day + Duration::from_secs(3)));
    assert_eq!(limit.window_start(), next_day);
    assert_eq!(limit.count(), 2);
}

#[test]
fn the_limit_holds_for_the_rest_of_the_window() {
    let mut limit = RateLimit::default();
    let began = limit.window_start();
    for _ in 0..10 {
        assert!(limit.allow_after(1, began));
    }
    for secs in [2, 100, 40_000, RATE_WINDOW_SECS - 1] {
        assert!(!limit.allow_after(secs, began + Duration::from_secs(secs)));
        assert_eq!(limit.window_start(), began);
    }
}
