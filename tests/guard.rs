use backend::accounts::{AccountDirectory, EnterForm};
use backend::guard::{guard, run_guarded, session_level, Guarded};
use backend::perms::Perms;
use backend::session::SessionStore;

fn setup() -> (SessionStore, AccountDirectory, String) {
    let mut accounts = AccountDirectory::new();
    let f = EnterForm { username: Some("ann".to_string()), email: "a@x".to_string(), password: "p".to_string() };
    accounts.sign_up(&f, 0).unwrap();
    let mut sessions = SessionStore::new();
    let id = sessions.create("ann".to_string());
    (sessions, accounts, id)
}

#[test]
fn request_without_session_is_rejected() {
    let (mut sessions, accounts, _) = setup();
    let level = session_level(&mut sessions, &accounts, None);
    assert_eq!(level, None);
    assert!(matches!(guard(Perms::Admin, level, "req", "denied"), Guarded::Respond("denied")));
    let level = session_level(&mut sessions, &accounts, Some("bogus"));
    assert!(matches!(guard(Perms::User, level, "req", "denied"), Guarded::Respond("denied")));
}

#[test]
fn request_with_wrong_level_is_rejected() {
    let (mut sessions, accounts, id) = setup();
    let level = session_level(&mut sessions, &accounts, Some(id.as_str()));
    assert_eq!(level, Some(Perms::User));
    assert!(matches!(guard(Perms::Admin, level, "req", "denied"), Guarded::Respond("denied")));
    assert!(matches!(guard(Perms::Editor, level, "req", "denied"), Guarded::Respond("denied")));
}

#[test]
fn request_with_required_level_is_forwarded_unchanged() {
    let (mut sessions, mut accounts, id) = setup();
    accounts.set_permission("ann", Perms::Admin);
    let level = session_level(&mut sessions, &accounts, Some(id.as_str()));
    let decided = guard(Perms::Admin, level, 21, 0);
    assert!(matches!(decided, Guarded::Forward(21)));
    assert_eq!(run_guarded(decided, |q: i32| q * 2), 42);
}

#[test]
fn rejected_request_never_reaches_handler() {
    let decided: Guarded<i32, i32> = guard(Perms::Admin, None, 21, -1);
    assert_eq!(run_guarded(decided, |_q: i32| -> i32 { panic!("handler called") }), -1);
}
