//! Decisions of the login and sign-up pages.

use vstd::prelude::*;

verus! {

/// What a visitor asks of the login and sign-up page.
#[derive(Debug, Clone, Copy, PartialEq, Eq, Structural)]
pub enum EnterPageAction {
    SignUp,
    LogIn,
    LogOut,
}

/// The query of the login and sign-up page.
#[derive(Debug, Clone, Copy, PartialEq, Eq, Structural)]
pub struct EnterParams {
    pub action: EnterPageAction,
}

/// How a visit to the login and sign-up page is answered.
#[derive(Debug, Clone, Copy, PartialEq, Eq, Structural)]
pub enum EnterPage {
    /// End the visitor's session and send them home.
    LogOut,
    /// Tell the visitor they are logged in already.
    AlreadyLoggedIn,
    /// Show the sign-up form.
    SignUp,
    /// Show the login form.
    LogIn,
}

/// What becomes of a submitted login or sign-up form.
#[derive(Debug, Clone, Copy, PartialEq, Eq, Structural)]
pub enum EnterSubmission {
    /// Refused: the visitor is logged in already.
    AlreadyLoggedIn,
    /// Create an account from the form.
    SignUp,
    /// Check the form's credentials.
    LogIn,
    /// Refused: the form names no action that a form can do.
    NoAction,
}

/// The answer to a visit asking for `action` (none: the login form).
/// Logging out comes first; the other pages are for visitors not logged in.
pub fn enter_page_for(action: Option<EnterPageAction>, logged_in: bool) -> (r: EnterPage)
    ensures
        action == Some(EnterPageAction::LogOut) ==> r == EnterPage::LogOut,
        action != Some(EnterPageAction::LogOut) && logged_in ==> r == EnterPage::AlreadyLoggedIn,
        action != Some(EnterPageAction::LogOut) && !logged_in ==> r == if action == Some(
            EnterPageAction::SignUp,
        ) {
            EnterPage::SignUp
        } else {
            EnterPage::LogIn
        },
{
    if action == Some(EnterPageAction::LogOut) {
        return EnterPage::LogOut;
    }
    if logged_in {
        return EnterPage::AlreadyLoggedIn;
    }
    match action {
        Some(EnterPageAction::SignUp) => EnterPage::SignUp,
        _ => EnterPage::LogIn,
    }
}

/// What becomes of a form submitted for `action`.
pub fn submission_for(action: EnterPageAction, logged_in: bool) -> (r: EnterSubmission)
    ensures
        logged_in ==> r == EnterSubmission::AlreadyLoggedIn,
        !logged_in ==> r == match action {
            EnterPageAction::SignUp => EnterSubmission::SignUp,
            EnterPageAction::LogIn => EnterSubmission::LogIn,
            EnterPageAction::LogOut => EnterSubmission::NoAction,
        },
{
    if logged_in {
        return EnterSubmission::AlreadyLoggedIn;
    }
    match action {
        EnterPageAction::SignUp => EnterSubmission::SignUp,
        EnterPageAction::LogIn => EnterSubmission::LogIn,
        EnterPageAction::LogOut => EnterSubmission::NoAction,
    }
}

} // verus!
