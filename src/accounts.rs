//! The account directory: the accounts of the site, kept in memory, with
//! usernames and emails each unique.

use vstd::prelude::*;

use crate::perms::Perms;
use crate::text::push_char;

verus! {

/// One account.
pub struct Account {
    pub username: String,
    pub permission: Perms,
    pub email: String,
    /// Lowercase hexadecimal SHA-256 digest of the password.
    pub password_hash: String,
    /// When the account was made, in milliseconds since the epoch.
    pub created_at: i64,
}

/// The SHA-256 digest of the UTF-8 encoding of `text`.
pub uninterp spec fn sha256_of(text: Seq<char>) -> Seq<u8>;

/// Relies on `sha2::Sha256` through `Digest::digest`: the SHA-256 digest of
/// the UTF-8 bytes of `text`, which is thirty-two bytes long.
#[verifier::external_body]
fn sha256_digest(text: &str) -> (r: Vec<u8>)
    ensures
        r@ == sha256_of(text@),
        r@.len() == 32,
{
    <sha2::Sha256 as sha2::Digest>::digest(text.as_bytes()).to_vec()
}

/// The lowercase hexadecimal digits.
pub open spec fn hex_digits() -> Seq<char> {
    seq!['0', '1', '2', '3', '4', '5', '6', '7', '8', '9', 'a', 'b', 'c', 'd', 'e', 'f']
}

/// Each byte as two lowercase hexadecimal digits, high digit first.
pub open spec fn hex_lower(b: Seq<u8>) -> Seq<char>
    decreases b.len(),
{
    if b.len() == 0 {
        Seq::empty()
    } else {
        hex_lower(b.drop_last()) + seq![
            hex_digits()[b.last() as int / 16],
            hex_digits()[b.last() as int % 16],
        ]
    }
}

proof fn lemma_hex_lower_len(b: Seq<u8>)
    ensures
        hex_lower(b).len() == 2 * b.len(),
    decreases b.len(),
{
    if b.len() > 0 {
        lemma_hex_lower_len(b.drop_last());
    }
}

fn hex_digit(n: u8) -> (c: char)
    requires
        n < 16,
    ensures
        c == hex_digits()[n as int],
{
    match n {
        0 => '0',
        1 => '1',
        2 => '2',
        3 => '3',
        4 => '4',
        5 => '5',
        6 => '6',
        7 => '7',
        8 => '8',
        9 => '9',
        10 => 'a',
        11 => 'b',
        12 => 'c',
        13 => 'd',
        14 => 'e',
        _ => 'f',
    }
}

/// The lowercase hexadecimal SHA-256 digest of `password`.
pub fn get_sha256(password: &str) -> (r: String)
    ensures
        r@ == hex_lower(sha256_of(password@)),
        r@.len() == 64,
{
    let digest = sha256_digest(password);
    let mut out = String::new();
    let mut i: usize = 0;
    while i < digest.len()
        invariant
            i <= digest.len(),
            out@ == hex_lower(digest@.subrange(0, i as int)),
        decreases digest.len() - i,
    {
        let b = digest[i];
        push_char(&mut out, hex_digit(b / 16));
        push_char(&mut out, hex_digit(b % 16));
        proof {
            let next = digest@.subrange(0, i + 1);
            assert(next.drop_last() =~= digest@.subrange(0, i as int));
            assert(out@ =~= hex_lower(next));
        }
        i = i + 1;
    }
    proof {
        assert(digest@.subrange(0, digest.len() as int) =~= digest@);
        lemma_hex_lower_len(digest@);
    }
    out
}

impl Account {
    /// A new account with the lowest level, storing the digest of
    /// `password`, made at time `now`.
    pub fn new(username: String, email: String, password: String, now: i64) -> (r: Account)
        ensures
            r.username == username,
            r.email == email,
            r.permission == Perms::User,
            r.password_hash@ == hex_lower(sha256_of(password@)),
            r.created_at == now,
    {
        let password_hash = get_sha256(password.as_str());
        Account { username, permission: Perms::User, email, password_hash, created_at: now }
    }
}

/// What a sign-up form holds.
pub struct EnterForm {
    pub username: Option<String>,
    pub email: String,
    pub password: String,
}

/// What an administrator does to an account.
#[derive(Debug, Clone, Copy, PartialEq, Eq, Structural)]
pub enum EditProfileAction {
    Delete,
    Edit,
}

/// An administrator's change to an account: delete it, or set its level.
#[derive(Debug, Clone, Copy, PartialEq, Eq, Structural)]
pub struct EditProfileForm {
    pub action: EditProfileAction,
    /// The new level; none leaves the level as it is.
    pub rank: Option<Perms>,
}

/// Why an account could not be added.
#[derive(Debug, Clone, Copy, PartialEq, Eq, Structural)]
pub enum SignUpError {
    /// The form gives no username.
    MissingUsername,
    /// An account already has that username or that email.
    AlreadyExists,
}

/// Why an administrator's change was refused.
#[derive(Debug, Clone, Copy, PartialEq, Eq, Structural)]
pub enum EditProfileError {
    AccountNotFound,
    /// Administrator accounts cannot be changed this way.
    CannotEditAdmin,
}

/// A list of accounts in which two share a username or an email.
#[derive(Debug, Clone, Copy, PartialEq, Eq, Structural)]
pub struct DuplicateAccount;

/// The message shown for a refused sign-up.
pub open spec fn sign_up_message(e: SignUpError) -> Seq<char> {
    match e {
        SignUpError::MissingUsername => "No username specified"@,
        SignUpError::AlreadyExists => "Account with that username/email already exists!"@,
    }
}

/// The message shown for a refused change.
pub open spec fn edit_profile_message(e: EditProfileError) -> Seq<char> {
    match e {
        EditProfileError::AccountNotFound => "Account not found"@,
        EditProfileError::CannotEditAdmin => "Cannot edit admin account"@,
    }
}

impl SignUpError {
    /// The message shown to the user.
    pub fn message(&self) -> (r: &'static str)
        ensures
            r@ == sign_up_message(*self),
    {
        match self {
            SignUpError::MissingUsername => "No username specified",
            SignUpError::AlreadyExists => "Account with that username/email already exists!",
        }
    }
}

impl EditProfileError {
    /// The message shown to the administrator.
    pub fn message(&self) -> (r: &'static str)
        ensures
            r@ == edit_profile_message(*self),
    {
        match self {
            EditProfileError::AccountNotFound => "Account not found",
            EditProfileError::CannotEditAdmin => "Cannot edit admin account",
        }
    }
}

/// No two accounts share a username, and no two share an email.
pub open spec fn unique_accounts(s: Seq<Account>) -> bool {
    forall|i: int, j: int|
        0 <= i < s.len() && 0 <= j < s.len() && i != j ==> s[i].username@ != s[j].username@
            && s[i].email@ != s[j].email@
}

/// Some account of `s` has the username or the email of `a`.
pub open spec fn conflicts(s: Seq<Account>, a: Account) -> bool {
    exists|i: int|
        0 <= i < s.len() && ((#[trigger] s[i]).username@ == a.username@ || s[i].email@ == a.email@)
}

/// Some account of `s` has the username `name` or the email `email`.
pub open spec fn taken(s: Seq<Account>, name: Seq<char>, email: Seq<char>) -> bool {
    exists|i: int| 0 <= i < s.len() && ((#[trigger] s[i]).username@ == name || s[i].email@ == email)
}

/// Some account of `s` has the username `name`.
pub open spec fn has_user(s: Seq<Account>, name: Seq<char>) -> bool {
    exists|i: int| 0 <= i < s.len() && (#[trigger] s[i]).username@ == name
}

/// `a` with its level set to `p`.
pub open spec fn with_permission(a: Account, p: Perms) -> Account {
    Account {
        username: a.username,
        permission: p,
        email: a.email,
        password_hash: a.password_hash,
        created_at: a.created_at,
    }
}

/// The position of the account named `name`, where there is one; with
/// unique usernames it is the only one.
pub open spec fn index_of(s: Seq<Account>, name: Seq<char>) -> int {
    choose|i: int| 0 <= i < s.len() && (#[trigger] s[i]).username@ == name
}

/// The account at position `i` of `s` has the email `email` and the
/// password digest `hash`.
pub open spec fn credentials_match(s: Seq<Account>, i: int, email: Seq<char>, hash: Seq<char>) -> bool {
    0 <= i < s.len() && s[i].email@ == email && s[i].password_hash@ == hash
}

/// The accounts of the site.
pub struct AccountDirectory {
    accounts: Vec<Account>,
}

impl View for AccountDirectory {
    type V = Seq<Account>;

    closed spec fn view(&self) -> Seq<Account> {
        self.accounts@
    }
}

impl AccountDirectory {
    /// Usernames and emails are each unique.
    pub open spec fn wf(&self) -> bool {
        unique_accounts(self@)
    }

    /// A directory with no accounts.
    pub fn new() -> (r: AccountDirectory)
        ensures
            r@ == Seq::<Account>::empty(),
            r.wf(),
    {
        AccountDirectory { accounts: Vec::new() }
    }

    /// The directory holding `accounts`, in their order, when no two share a
    /// username or an email.
    pub fn from_accounts(accounts: Vec<Account>) -> (r: Result<AccountDirectory, DuplicateAccount>)
        ensures
            r is Ok <==> unique_accounts(accounts@),
            r matches Ok(d) ==> d@ == accounts@ && d.wf(),
    {
        let mut d = AccountDirectory::new();
        let ghost all = accounts@;
        for a in it: accounts.into_iter()
            invariant
                it.seq() == all,
                d.wf(),
                d@ == all.subrange(0, it.index() as int),
        {
            let ghost k = it.index();
            if d.register(a).is_err() {
                proof {
                    let i = choose|i: int|
                        0 <= i < d@.len() && ((#[trigger] d@[i]).username@ == all[k].username@
                            || d@[i].email@ == all[k].email@);
                    assert(all[i] == d@[i]);
                }
                return Err(DuplicateAccount);
            }
            assert(d@ =~= all.subrange(0, k + 1));
        }
        assert(all.subrange(0, all.len() as int) =~= all);
        Ok(d)
    }

    /// The accounts, in order, for saving.
    pub fn as_slice(&self) -> (r: &[Account])
        ensures
            r@ == self@,
    {
        self.accounts.as_slice()
    }

    /// The number of accounts.
    pub fn len(&self) -> (r: usize)
        ensures
            r == self@.len(),
    {
        self.accounts.len()
    }

    /// The position of the account named `username`.
    pub fn position(&self, username: &str) -> (r: Option<usize>)
        ensures
            match r {
                Some(i) => i < self@.len() && self@[i as int].username@ == username@,
                None => !has_user(self@, username@),
            },
    {
        let key = username.to_owned();
        let mut i: usize = 0;
        while i < self.accounts.len()
            invariant
                i <= self.accounts.len(),
                key@ == username@,
                forall|j: int| 0 <= j < i ==> (#[trigger] self@[j]).username@ != username@,
            decreases self.accounts.len() - i,
        {
            if self.accounts[i].username == key {
                return Some(i);
            }
            i = i + 1;
        }
        None
    }

    /// The account named `username`.
    pub fn get(&self, username: &str) -> (r: Option<&Account>)
        ensures
            match r {
                Some(a) => exists|i: int| 0 <= i < self@.len() && self@[i] == *a && a.username@ == username@,
                None => !has_user(self@, username@),
            },
    {
        match self.position(username) {
            Some(i) => Some(&self.accounts[i]),
            None => None,
        }
    }

    /// Adds `account` at the end, unless an account already has its username
    /// or its email.
    pub fn register(&mut self, account: Account) -> (r: Result<(), SignUpError>)
        requires
            old(self).wf(),
        ensures
            final(self).wf(),
            r is Ok <==> !conflicts(old(self)@, account),
            r is Ok ==> final(self)@ == old(self)@.push(account),
            r is Err ==> r == Err::<(), SignUpError>(SignUpError::AlreadyExists),
            r is Err ==> final(self)@ == old(self)@,
    {
        let mut i: usize = 0;
        while i < self.accounts.len()
            invariant
                i <= self.accounts.len(),
                self@ == old(self)@,
                self.wf(),
                forall|j: int|
                    0 <= j < i ==> (#[trigger] self@[j]).username@ != account.username@
                        && self@[j].email@ != account.email@,
            decreases self.accounts.len() - i,
        {
            if self.accounts[i].username == account.username || self.accounts[i].email
                == account.email {
                assert(conflicts(old(self)@, account)) by {
                    assert(self@[i as int] == old(self)@[i as int]);
                }
                return Err(SignUpError::AlreadyExists);
            }
            i = i + 1;
        }
        self.accounts.push(account);
        Ok(())
    }

    /// Sets the level of the account named `username`, when there is one.
    pub fn set_permission(&mut self, username: &str, perm: Perms) -> (found: bool)
        requires
            old(self).wf(),
        ensures
            final(self).wf(),
            found == has_user(old(self)@, username@),
            found ==> exists|i: int|
                0 <= i < old(self)@.len() && (#[trigger] old(self)@[i]).username@ == username@
                    && final(self)@ == old(self)@.update(i, with_permission(old(self)@[i], perm)),
            !found ==> final(self)@ == old(self)@,
    {
        match self.position(username) {
            Some(i) => {
                self.accounts[i].permission = perm;
                assert(self@ =~= old(self)@.update(i as int, with_permission(old(self)@[i as int], perm)));
                true
            },
            None => false,
        }
    }

    /// The level of the account named `username`.
    pub fn get_perms(&self, username: &str) -> (r: Option<Perms>)
        ensures
            match r {
                Some(p) => exists|i: int|
                    0 <= i < self@.len() && (#[trigger] self@[i]).username@ == username@
                        && self@[i].permission == p,
                None => !has_user(self@, username@),
            },
    {
        match self.get(username) {
            Some(a) => Some(a.permission),
            None => None,
        }
    }

    /// Removes the account named `username`, when there is one.
    pub fn remove_account(&mut self, username: &str) -> (found: bool)
        requires
            old(self).wf(),
        ensures
            final(self).wf(),
            found == has_user(old(self)@, username@),
            found ==> final(self)@ == old(self)@.remove(index_of(old(self)@, username@)),
            !found ==> final(self)@ == old(self)@,
    {
        match self.position(username) {
            Some(i) => {
                self.accounts.remove(i);
                proof {
                    let s = old(self)@;
                    assert(s[index_of(s, username@)].username@ == username@);
                    assert(index_of(s, username@) == i);
                    assert forall|a: int, b: int|
                        0 <= a < self@.len() && 0 <= b < self@.len() && a != b implies self@[a].username@
                        != self@[b].username@ && self@[a].email@ != self@[b].email@ by {
                        let oa = if a < i { a } else { a + 1 };
                        let ob = if b < i { b } else { b + 1 };
                        assert(self@[a] == s[oa] && self@[b] == s[ob]);
                    }
                }
                true
            },
            None => false,
        }
    }

    /// Applies an administrator's change to the account named `username`.
    /// An unknown account and an administrator's account are refused.
    pub fn edit_profile(&mut self, username: &str, form: &EditProfileForm) -> (r: Result<
        (),
        EditProfileError,
    >)
        requires
            old(self).wf(),
        ensures
            final(self).wf(),
            ({
                let s = old(self)@;
                let i = index_of(s, username@);
                if !has_user(s, username@) {
                    r == Err::<(), EditProfileError>(EditProfileError::AccountNotFound) && final(self)@ == s
                } else if s[i].permission == Perms::Admin {
                    r == Err::<(), EditProfileError>(EditProfileError::CannotEditAdmin) && final(self)@ == s
                } else {
                    &&& r is Ok
                    &&& form.action == EditProfileAction::Delete ==> final(self)@ == s.remove(i)
                    &&& form.action == EditProfileAction::Edit ==> final(self)@ == match form.rank {
                        Some(p) => s.update(i, with_permission(s[i], p)),
                        None => s,
                    }
                }
            }),
    {
        let ghost s = old(self)@;
        let i = match self.position(username) {
            None => return Err(EditProfileError::AccountNotFound),
            Some(i) => i,
        };
        proof {
            assert(s[index_of(s, username@)].username@ == username@);
            assert(index_of(s, username@) == i);
        }
        if self.accounts[i].permission == Perms::Admin {
            return Err(EditProfileError::CannotEditAdmin);
        }
        match form.action {
            EditProfileAction::Delete => {
                self.remove_account(username);
            },
            EditProfileAction::Edit => {
                if let Some(p) = form.rank {
                    self.set_permission(username, p);
                }
            },
        }
        Ok(())
    }

    /// The username of the account with email `email` and password digest
    /// `password_hash`.
    pub fn authenticate(&self, email: &str, password_hash: &str) -> (r: Option<String>)
        ensures
            match r {
                Some(u) => exists|i: int|
                    credentials_match(self@, i, email@, password_hash@) && u@ == #[trigger] self@[i].username@,
                None => forall|i: int| !credentials_match(self@, i, email@, password_hash@),
            },
    {
        let key = email.to_owned();
        let hash = password_hash.to_owned();
        let mut i: usize = 0;
        while i < self.accounts.len()
            invariant
                i <= self.accounts.len(),
                key@ == email@,
                hash@ == password_hash@,
                forall|j: int| 0 <= j < i ==> !credentials_match(self@, j, email@, password_hash@),
            decreases self.accounts.len() - i,
        {
            if self.accounts[i].email == key && self.accounts[i].password_hash == hash {
                let u = self.accounts[i].username.clone();
                assert(credentials_match(self@, i as int, email@, password_hash@) && u@
                    == self@[i as int].username@);
                return Some(u);
            }
            i = i + 1;
        }
        None
    }

    /// The username of the account with email `email` whose password is
    /// `password`.
    pub fn login(&self, email: &str, password: &str) -> (r: Option<String>)
        ensures
            match r {
                Some(u) => exists|i: int|
                    credentials_match(self@, i, email@, hex_lower(sha256_of(password@))) && u@
                        == #[trigger] self@[i].username@,
                None => forall|i: int|
                    !credentials_match(self@, i, email@, hex_lower(sha256_of(password@))),
            },
    {
        let hash = get_sha256(password);
        self.authenticate(email, hash.as_str())
    }

    /// Adds the account that a sign-up form describes, made at time `now`,
    /// and returns its username.
    pub fn sign_up(&mut self, form: &EnterForm, now: i64) -> (r: Result<String, SignUpError>)
        requires
            old(self).wf(),
        ensures
            final(self).wf(),
            form.username is None ==> r == Err::<String, SignUpError>(SignUpError::MissingUsername)
                && final(self)@ == old(self)@,
            form.username matches Some(name) ==> (r is Ok <==> !taken(old(self)@, name@, form.email@)),
            r matches Err(e) ==> final(self)@ == old(self)@ && (form.username is Some ==> e
                == SignUpError::AlreadyExists),
            r matches Ok(name) ==> {
                let a = final(self)@.last();
                &&& form.username == Some(name)
                &&& final(self)@.len() == old(self)@.len() + 1
                &&& final(self)@.drop_last() == old(self)@
                &&& a.username == name
                &&& a.email == form.email
                &&& a.permission == Perms::User
                &&& a.password_hash@ == hex_lower(sha256_of(form.password@))
                &&& a.created_at == now
            },
    {
        match &form.username {
            None => Err(SignUpError::MissingUsername),
            Some(name) => {
                let account = Account::new(name.clone(), form.email.clone(), form.password.clone(), now);
                match self.register(account) {
                    Ok(()) => Ok(name.clone()),
                    Err(e) => Err(e),
                }
            },
        }
    }
}

} // verus!
