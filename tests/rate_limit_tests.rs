use snippet_forge::errors::AppError;
use snippet_forge::rate_limit::{RateLimitConfig, RateLimiter, RequestRecord};

fn limiter(max_requests: usize, window_duration: u64) -> RateLimiter {
    RateLimiter::with_config(RateLimitConfig { max_requests, window_duration })
}

#[test]
fn test_rate_limiter_allows_requests() {
    let mut l = limiter(3, 60_000);
    assert!(l.check_rate_limit("user1", 0).is_ok());
    assert!(l.check_rate_limit("user1", 1).is_ok());
    assert!(l.check_rate_limit("user1", 2).is_ok());
    assert!(l.check_rate_limit("user1", 3).is_err());
}

#[test]
fn test_rate_limiter_different_identifiers() {
    let mut l = limiter(2, 60_000);
    assert!(l.check_rate_limit("user1", 0).is_ok());
    assert!(l.check_rate_limit("user1", 0).is_ok());
    assert!(l.check_rate_limit("user2", 0).is_ok());
    assert!(l.check_rate_limit("user2", 0).is_ok());
    assert!(l.check_rate_limit("user1", 0).is_err());
    assert!(l.check_rate_limit("user2", 0).is_err());
}

#[test]
fn test_rate_limiter_window_expiry() {
    let mut l = limiter(2, 100);
    assert!(l.check_rate_limit("user1", 1_000).is_ok());
    assert!(l.check_rate_limit("user1", 1_000).is_ok());
    assert!(l.check_rate_limit("user1", 1_000).is_err());
    assert!(l.check_rate_limit("user1", 1_150).is_ok());
}

#[test]
fn test_get_remaining_requests() {
    let mut l = limiter(5, 60_000);
    assert_eq!(l.get_remaining_requests("user1", 0), 5);
    l.check_rate_limit("user1", 0).unwrap();
    assert_eq!(l.get_remaining_requests("user1", 0), 4);
    l.check_rate_limit("user1", 0).unwrap();
    assert_eq!(l.get_remaining_requests("user1", 0), 3);
}

#[test]
fn test_reset() {
    let mut l = limiter(2, 60_000);
    l.check_rate_limit("user1", 0).unwrap();
    l.check_rate_limit("user1", 0).unwrap();
    assert!(l.check_rate_limit("user1", 0).is_err());
    l.reset("user1");
    assert!(l.check_rate_limit("user1", 0).is_ok());
}

#[test]
fn test_cleanup_expired() {
    let mut l = limiter(5, 100);
    l.check_rate_limit("user1", 0).unwrap();
    l.check_rate_limit("user2", 0).unwrap();
    l.check_rate_limit("user3", 0).unwrap();
    let removed = l.cleanup_expired(150);
    assert_eq!(removed, 3);
}

#[test]
fn test_stats() {
    let mut l = limiter(10, 60_000);
    l.check_rate_limit("user1", 0).unwrap();
    l.check_rate_limit("user1", 0).unwrap();
    l.check_rate_limit("user2", 0).unwrap();
    let stats = l.get_stats();
    assert_eq!(stats.total_identifiers, 2);
    assert_eq!(stats.total_requests, 3);
    assert_eq!(stats.max_requests, 10);
}

#[test]
fn window_allows_exactly_max_then_reopens() {
    let mut l = limiter(4, 1_000);
    for t in 0..4u64 {
        assert!(l.check_rate_limit("id", 100 + t * 10).is_ok());
    }
    assert!(l.check_rate_limit("id", 500).is_err());
    assert!(l.check_rate_limit("id", 1_099).is_err());
    assert!(l.check_rate_limit("id", 1_131).is_ok());
}

#[test]
fn refusal_carries_the_configured_message() {
    let mut l = limiter(1, 60_000);
    l.check_rate_limit("id", 0).unwrap();
    match l.check_rate_limit("id", 0) {
        Err(AppError::RateLimitError { message }) => {
            assert_eq!(message, "Rate limit exceeded: 1 requests per 60 seconds")
        }
        other => panic!("unexpected {:?}", other),
    }
}

#[test]
fn cleanup_keeps_identifiers_with_live_requests() {
    let mut l = limiter(5, 100);
    l.check_rate_limit("old", 0).unwrap();
    l.check_rate_limit("new", 90).unwrap();
    assert_eq!(l.cleanup_expired(150), 1);
    assert_eq!(l.get_request_count("new", 150), 1);
    assert_eq!(l.get_request_count("old", 150), 0);
    assert_eq!(l.get_stats().total_identifiers, 1);
}

#[test]
fn default_config_is_hundred_a_minute() {
    let l = RateLimiter::new();
    assert_eq!(l.get_config(), RateLimitConfig { max_requests: 100, window_duration: 60_000 });
}

#[test]
fn request_record_forgets_old_and_future_times() {
    let mut r = RequestRecord::new();
    r.add_request(0);
    r.add_request(95);
    r.add_request(200);
    r.cleanup(100, 100);
    assert_eq!(r.request_count(), 1);
}
