use snippet_forge::errors::AppError;
use snippet_forge::session::{SessionData, SessionManager};

#[test]
fn test_create_session() {
    let mut manager: SessionManager<String> = SessionManager::new();
    let session_id = manager.create_session(0);
    assert!(!session_id.is_empty());
    assert!(manager.validate_session(&session_id, 0));
}

#[test]
fn test_session_data() {
    let mut manager: SessionManager<String> = SessionManager::new();
    let session_id = manager.create_session(0);
    manager.set_session_data(&session_id, "key1".to_string(), "value1".to_string(), 1).unwrap();
    let value = manager.get_session_data(&session_id, "key1").unwrap();
    assert_eq!(value, Some("value1".to_string()));
    let removed = manager.remove_session_data(&session_id, "key1", 2).unwrap();
    assert_eq!(removed, Some("value1".to_string()));
    let value = manager.get_session_data(&session_id, "key1").unwrap();
    assert_eq!(value, None);
}

#[test]
fn test_destroy_session() {
    let mut manager: SessionManager<String> = SessionManager::new();
    let session_id = manager.create_session(0);
    assert!(manager.validate_session(&session_id, 0));
    manager.destroy_session(&session_id).unwrap();
    assert!(!manager.validate_session(&session_id, 0));
}

#[test]
fn test_session_expiry() {
    let mut manager: SessionManager<String> = SessionManager::with_expiry(100);
    let session_id = manager.create_session(1_000);
    assert!(manager.validate_session(&session_id, 1_000));
    assert!(!manager.validate_session(&session_id, 1_150));
}

#[test]
fn test_cleanup_expired_sessions() {
    let mut manager: SessionManager<String> = SessionManager::with_expiry(100);
    for _ in 0..5 {
        manager.create_session(0);
    }
    assert_eq!(manager.session_count(), 5);
    let removed = manager.cleanup_expired_sessions(150).unwrap();
    assert_eq!(removed, 5);
    assert_eq!(manager.session_count(), 0);
}

#[test]
fn test_session_stats() {
    let mut manager: SessionManager<String> = SessionManager::new();
    for _ in 0..3 {
        manager.create_session(0);
    }
    let stats = manager.get_stats(0);
    assert_eq!(stats.total_sessions, 3);
    assert_eq!(stats.active_sessions, 3);
    assert_eq!(stats.expired_sessions, 0);
    assert_eq!(stats.expiry_duration_seconds, 3_600);
}

#[test]
fn use_keeps_a_session_alive() {
    let mut manager: SessionManager<u32> = SessionManager::with_expiry(100);
    let a = manager.create_session(0);
    let b = manager.create_session(0);
    manager.touch_session(&a, 90).unwrap();
    manager.set_session_data(&b, "n".to_string(), 1, 10).unwrap();
    assert!(manager.validate_session(&a, 190));
    assert!(!manager.validate_session(&b, 111));
    assert_eq!(manager.cleanup_expired_sessions(150).unwrap(), 1);
    assert!(manager.get_session(&a).is_some());
    assert!(manager.get_session(&b).is_none());
    assert_eq!(manager.get_session(&a).unwrap().last_accessed(), 90);
}

#[test]
fn unknown_session_is_an_error() {
    let mut manager: SessionManager<u32> = SessionManager::new();
    match manager.touch_session("nope", 0) {
        Err(AppError::SessionError { message }) => assert_eq!(message, "Session not found: nope"),
        other => panic!("unexpected {:?}", other),
    }
    assert!(manager.get_session_data("nope", "k").is_err());
    assert!(manager.destroy_session("nope").is_err());
}

#[test]
fn session_data_keeps_values_by_key() {
    let mut s: SessionData<i32> = SessionData::new("s".to_string(), 5);
    s.set("a".to_string(), 1, 6);
    s.set("a".to_string(), 2, 7);
    assert_eq!(s.get("a"), Some(&2));
    assert_eq!(s.remove("b", 8), None);
    assert_eq!(s.last_accessed(), 8);
    s.clear(9);
    assert_eq!(s.get("a"), None);
    assert_eq!(s.created_at(), 5);
    assert!(s.is_expired(0, 10));
    assert!(!s.is_expired(1, 10));
    assert!(s.is_expired(100, 8));
}
