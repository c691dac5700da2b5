use unicom::session::{admin_token_step, admin_token_stored, SessionCache, TokenStep};

const SEC: u128 = 1_000_000_000;

#[test]
fn cached_session_is_found_until_it_expires() {
    let mut c = SessionCache::new(30);
    c.insert_at("tok".to_string(), 7, 5 * SEC);
    assert_eq!(c.get_at("tok", 5 * SEC), Some(7));
    assert_eq!(c.get_at("tok", 34 * SEC), Some(7));
    assert_eq!(c.get_at("tok", 35 * SEC), None);
    assert_eq!(c.get_at("other", 5 * SEC), None);
}

#[test]
fn insert_replaces_and_remove_drops() {
    let mut c = SessionCache::new(30);
    c.insert_at("a".to_string(), 1, 0);
    c.insert_at("a".to_string(), 2, 10 * SEC);
    assert_eq!(c.get_at("a", 35 * SEC), Some(2));
    c.remove("a");
    assert_eq!(c.get_at("a", 10 * SEC), None);
    c.remove("missing");
}

#[test]
fn cleanup_keeps_fresh_entries() {
    let mut c = SessionCache::new(30);
    c.insert_at("old".to_string(), 1, 0);
    c.insert_at("new".to_string(), 2, 20 * SEC);
    c.cleanup_at(40 * SEC);
    assert_eq!(c.get_at("old", 40 * SEC), None);
    assert_eq!(c.get_at("new", 40 * SEC), Some(2));
}

#[test]
fn admin_sessions_dropped() {
    let mut c = SessionCache::new(30);
    c.insert_at("x".to_string(), 1, 0);
    c.insert_at("y".to_string(), 1, 0);
    c.insert_at("z".to_string(), 2, 0);
    c.remove_by_admin(1);
    assert_eq!(c.get_at("x", SEC), None);
    assert_eq!(c.get_at("y", SEC), None);
    assert_eq!(c.get_at("z", SEC), Some(2));
}

#[test]
fn live_clock_round_trip() {
    let mut c = SessionCache::new(30);
    c.insert("live".to_string(), 9);
    assert_eq!(c.get("live"), Some(9));
    c.cleanup();
    assert_eq!(c.get("live"), Some(9));
    assert_eq!(c.get("absent"), None);
}

#[test]
fn admin_token_check_steps() {
    let mut c = SessionCache::new(3600);
    assert!(matches!(admin_token_step(&c, ""), TokenStep::Missing));
    assert!(matches!(admin_token_step(&c, "Basic abc"), TokenStep::Missing));
    match admin_token_step(&c, "Bearer abc") {
        TokenStep::LookUp(t) => assert_eq!(t, "abc"),
        _ => panic!("expected a lookup"),
    }
    assert_eq!(admin_token_stored(&mut c, "abc", None), None);
    assert!(matches!(admin_token_step(&c, "Bearer abc"), TokenStep::LookUp(_)));
    assert_eq!(admin_token_stored(&mut c, "abc", Some(9)), Some(9));
    assert!(matches!(admin_token_step(&c, "Bearer abc"), TokenStep::Cached(9)));
}
