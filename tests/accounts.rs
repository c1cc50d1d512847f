use backend::accounts::{
    get_sha256, Account, AccountDirectory, DuplicateAccount, EditProfileAction, EditProfileError,
    EditProfileForm, EnterForm, SignUpError,
};
use backend::perms::Perms;

fn form(username: Option<&str>, email: &str, password: &str) -> EnterForm {
    EnterForm {
        username: username.map(|u| u.to_string()),
        email: email.to_string(),
        password: password.to_string(),
    }
}

fn directory() -> AccountDirectory {
    let mut d = AccountDirectory::new();
    d.sign_up(&form(Some("ann"), "ann@x.org", "pw1"), 5).unwrap();
    d.sign_up(&form(Some("bob"), "bob@x.org", "pw2"), 6).unwrap();
    d
}

#[test]
fn sha256_of_known_text() {
    assert_eq!(
        get_sha256("abc"),
        "ba7816bf8f01cfea414140de5dae2223b00361a396177a9cb410ff61f20015ad"
    );
    assert_eq!(
        get_sha256(""),
        "e3b0c44298fc1c149afbf4c8996fb92427ae41e4649b934ca495991b7852b855"
    );
}

#[test]
fn new_account_is_a_user_with_hashed_password() {
    let a = Account::new("ann".to_string(), "a@x".to_string(), "abc".to_string(), 7);
    assert_eq!(a.permission, Perms::User);
    assert_eq!(a.password_hash, get_sha256("abc"));
    assert_eq!(a.created_at, 7);
}

#[test]
fn sign_up_requires_username() {
    let mut d = directory();
    assert_eq!(d.sign_up(&form(None, "c@x.org", "pw"), 1), Err(SignUpError::MissingUsername));
    assert_eq!(d.len(), 2);
}

#[test]
fn sign_up_refuses_taken_username_or_email() {
    let mut d = directory();
    assert_eq!(d.sign_up(&form(Some("ann"), "new@x.org", "pw"), 1), Err(SignUpError::AlreadyExists));
    assert_eq!(d.sign_up(&form(Some("cat"), "bob@x.org", "pw"), 1), Err(SignUpError::AlreadyExists));
    assert_eq!(d.sign_up(&form(Some("cat"), "cat@x.org", "pw"), 1), Ok("cat".to_string()));
    assert_eq!(d.len(), 3);
    assert_eq!(
        SignUpError::AlreadyExists.message(),
        "Account with that username/email already exists!"
    );
}

#[test]
fn login_checks_email_and_password() {
    let d = directory();
    assert_eq!(d.login("ann@x.org", "pw1"), Some("ann".to_string()));
    assert_eq!(d.login("ann@x.org", "pw2"), None);
    assert_eq!(d.login("nobody@x.org", "pw1"), None);
    assert_eq!(d.authenticate("bob@x.org", &get_sha256("pw2")), Some("bob".to_string()));
}

#[test]
fn permissions_are_looked_up_by_username() {
    let mut d = directory();
    assert_eq!(d.get_perms("ann"), Some(Perms::User));
    assert_eq!(d.get_perms("zed"), None);
    assert!(d.set_permission("ann", Perms::Editor));
    assert_eq!(d.get_perms("ann"), Some(Perms::Editor));
    assert!(!d.set_permission("zed", Perms::Editor));
}

#[test]
fn edit_profile_changes_rank_or_deletes() {
    let mut d = directory();
    let edit = EditProfileForm { action: EditProfileAction::Edit, rank: Some(Perms::Editor) };
    assert_eq!(d.edit_profile("bob", &edit), Ok(()));
    assert_eq!(d.get_perms("bob"), Some(Perms::Editor));
    let keep = EditProfileForm { action: EditProfileAction::Edit, rank: None };
    assert_eq!(d.edit_profile("bob", &keep), Ok(()));
    assert_eq!(d.get_perms("bob"), Some(Perms::Editor));
    let delete = EditProfileForm { action: EditProfileAction::Delete, rank: None };
    assert_eq!(d.edit_profile("bob", &delete), Ok(()));
    assert!(d.get("bob").is_none());
    assert_eq!(d.len(), 1);
}

#[test]
fn edit_profile_refuses_admin_and_unknown() {
    let mut d = directory();
    d.set_permission("ann", Perms::Admin);
    let delete = EditProfileForm { action: EditProfileAction::Delete, rank: None };
    assert_eq!(d.edit_profile("ann", &delete), Err(EditProfileError::CannotEditAdmin));
    assert_eq!(d.edit_profile("zed", &delete), Err(EditProfileError::AccountNotFound));
    assert_eq!(d.len(), 2);
    assert_eq!(EditProfileError::CannotEditAdmin.message(), "Cannot edit admin account");
}

#[test]
fn loading_refuses_duplicates() {
    let a = Account::new("ann".to_string(), "a@x".to_string(), "p".to_string(), 1);
    let b = Account::new("ann".to_string(), "b@x".to_string(), "p".to_string(), 1);
    assert!(matches!(AccountDirectory::from_accounts(vec![a, b]), Err(DuplicateAccount)));
    let a = Account::new("ann".to_string(), "a@x".to_string(), "p".to_string(), 1);
    let c = Account::new("cat".to_string(), "c@x".to_string(), "p".to_string(), 1);
    let d = AccountDirectory::from_accounts(vec![a, c]).ok().unwrap();
    assert_eq!(d.as_slice().len(), 2);
    assert_eq!(d.position("cat"), Some(1));
}

#[test]
fn remove_account_by_name() {
    let mut d = directory();
    assert!(d.remove_account("ann"));
    assert!(!d.remove_account("ann"));
    assert_eq!(d.len(), 1);
}
