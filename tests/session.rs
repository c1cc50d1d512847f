use backend::session::{get_logged_in, is_logged_in, process_logout, Session, SessionStore, SESSION_EXPIRY_MS};

const T0: i64 = 1_700_000_000_000;

fn store_with(id: &str, user: &str, at: i64) -> SessionStore {
    let mut s = SessionStore::new();
    s.insert(Session::new(id.to_string(), user.to_string(), at));
    s
}

#[test]
fn lookup_of_live_session_gives_username() {
    let mut s = store_with("abc", "ann", T0);
    assert_eq!(s.touch_and_validate_at("abc", T0 + 1000), Some("ann".to_string()));
}

#[test]
fn lookup_of_unknown_session_gives_nothing() {
    let mut s = store_with("abc", "ann", T0);
    assert_eq!(s.touch_and_validate_at("xyz", T0), None);
}

#[test]
fn session_lapses_at_thirty_minutes() {
    let mut s = store_with("abc", "ann", T0);
    assert_eq!(s.touch_and_validate_at("abc", T0 + SESSION_EXPIRY_MS - 1), Some("ann".to_string()));
    let mut s = store_with("abc", "ann", T0);
    assert_eq!(s.touch_and_validate_at("abc", T0 + SESSION_EXPIRY_MS), None);
    assert_eq!(SESSION_EXPIRY_MS, 1_800_000);
}

#[test]
fn lookup_slides_the_expiry() {
    let mut s = store_with("abc", "ann", T0);
    let later = T0 + SESSION_EXPIRY_MS - 1;
    assert!(s.touch_and_validate_at("abc", later).is_some());
    assert_eq!(s.touch_and_validate_at("abc", later + SESSION_EXPIRY_MS - 1), Some("ann".to_string()));
}

#[test]
fn invalidate_twice_is_invalidate_once() {
    let mut s = store_with("abc", "ann", T0);
    s.insert(Session::new("def".to_string(), "bob".to_string(), T0));
    s.insert(Session::new("abc".to_string(), "ann".to_string(), T0));
    s.invalidate("abc");
    assert_eq!(s.len(), 1);
    s.invalidate("abc");
    assert_eq!(s.len(), 1);
    assert_eq!(s.touch_and_validate_at("def", T0), Some("bob".to_string()));
    assert_eq!(s.touch_and_validate_at("abc", T0), None);
}

#[test]
fn invalidate_unknown_id_is_not_an_error() {
    let mut s = store_with("abc", "ann", T0);
    s.invalidate("nope");
    assert_eq!(s.len(), 1);
}

#[test]
fn sweep_removes_only_sessions_idle_beyond_expiry() {
    let mut s = store_with("old", "ann", T0);
    s.insert(Session::new("new".to_string(), "bob".to_string(), T0 + SESSION_EXPIRY_MS));
    s.sweep_at(T0 + SESSION_EXPIRY_MS);
    assert_eq!(s.len(), 2);
    s.sweep_at(T0 + SESSION_EXPIRY_MS + 1);
    assert_eq!(s.len(), 1);
    assert_eq!(s.touch_and_validate_at("new", T0 + SESSION_EXPIRY_MS), Some("bob".to_string()));
}

#[test]
fn sweep_keeps_session_refreshed_after_its_clock_reading() {
    let mut s = store_with("abc", "ann", T0);
    let sweep_time = T0 + SESSION_EXPIRY_MS - 10;
    assert!(s.touch_and_validate_at("abc", sweep_time + 5).is_some());
    s.sweep_at(sweep_time);
    assert_eq!(s.len(), 1);
    let mut s = store_with("abc", "ann", T0);
    s.sweep_at(sweep_time);
    assert_eq!(s.touch_and_validate_at("abc", sweep_time + 5), Some("ann".to_string()));
}

#[test]
fn create_gives_fresh_tokens() {
    let mut s = SessionStore::new();
    let a = s.create("ann".to_string());
    let b = s.create("ann".to_string());
    assert_eq!(a.len(), 36);
    assert_ne!(a, b);
    assert_eq!(s.touch_and_validate(&a), Some("ann".to_string()));
    assert_eq!(s.len(), 2);
}

#[test]
fn logged_in_needs_a_cookie() {
    let mut s = SessionStore::new();
    let id = s.create("ann".to_string());
    assert_eq!(get_logged_in(&mut s, None), None);
    assert!(!is_logged_in(&mut s, None));
    assert!(is_logged_in(&mut s, Some(id.as_str())));
    assert_eq!(get_logged_in(&mut s, Some(id.as_str())), Some("ann".to_string()));
    assert!(!is_logged_in(&mut s, Some("other")));
}

#[test]
fn session_expiry_check() {
    let mut session = Session::new("a".to_string(), "ann".to_string(), T0);
    assert!(!session.is_expired(T0 + SESSION_EXPIRY_MS - 1));
    assert!(session.is_expired(T0 + SESSION_EXPIRY_MS));
    assert!(!session.is_stale(T0 + SESSION_EXPIRY_MS));
    assert!(session.is_stale(T0 + SESSION_EXPIRY_MS + 1));
    session.extend(T0 + SESSION_EXPIRY_MS);
    assert!(!session.is_expired(T0 + SESSION_EXPIRY_MS));
}

#[test]
fn sweep_with_clock_keeps_fresh_session() {
    let mut s = SessionStore::new();
    let id = s.create("ann".to_string());
    s.sweep();
    assert_eq!(s.touch_and_validate(&id), Some("ann".to_string()));
}

#[test]
fn logout_removes_the_cookie_session() {
    let mut s = store_with("abc", "ann", T0);
    s.insert(Session::new("def".to_string(), "bob".to_string(), T0));
    process_logout(&mut s, None);
    assert_eq!(s.len(), 2);
    process_logout(&mut s, Some("abc"));
    assert_eq!(s.len(), 1);
    assert_eq!(s.touch_and_validate_at("abc", T0), None);
}
