//! Permission levels of an account.

use vstd::prelude::*;

use crate::template::{Arg, ArgEntry};
use crate::text::same_text;

verus! {

/// The permission level of an account. A guard requires one exact level:
/// levels are compared for equality, never ranked.
#[derive(Debug, Clone, Copy, PartialEq, Eq, Structural)]
pub enum Perms {
    Admin,
    Editor,
    User,
}

/// A permission level given on a command line.
#[derive(Debug, Clone, Copy, PartialEq, Eq, Structural)]
pub struct PermsWrapper(pub Perms);

/// A text that names no permission level.
#[derive(Debug, Clone, Copy, PartialEq, Eq, Structural)]
pub struct InvalidPerm;

/// The name under which a level is shown and parsed.
pub open spec fn perm_name(p: Perms) -> Seq<char> {
    match p {
        Perms::Admin => "Admin"@,
        Perms::Editor => "Editor"@,
        Perms::User => "User"@,
    }
}

impl Perms {
    /// The level's name, as an owned string.
    pub fn as_string(&self) -> (r: String)
        ensures
            r@ == perm_name(*self),
    {
        self.as_str().to_owned()
    }

    /// The level's name.
    pub fn as_str(&self) -> (r: &'static str)
        ensures
            r@ == perm_name(*self),
    {
        match self {
            Perms::Admin => "Admin",
            Perms::Editor => "Editor",
            Perms::User => "User",
        }
    }

    /// Every level, from the most privileged to the least.
    pub fn iter() -> (r: Vec<Perms>)
        ensures
            r@ == all_levels(),
    {
        let mut r: Vec<Perms> = Vec::new();
        r.push(Perms::Admin);
        r.push(Perms::Editor);
        r.push(Perms::User);
        assert(r@ =~= seq![Perms::Admin, Perms::Editor, Perms::User]);
        r
    }
}

/// Every level, from the most privileged to the least.
pub open spec fn all_levels() -> Seq<Perms> {
    seq![Perms::Admin, Perms::Editor, Perms::User]
}

/// The key of the flag that marks `p` as the level chosen in a form.
pub open spec fn selector_key(p: Perms) -> Seq<char> {
    match p {
        Perms::Admin => "admin_selected"@,
        Perms::Editor => "editor_selected"@,
        Perms::User => "user_selected"@,
    }
}

/// One flag per level, in the order of [`Perms::iter`], set for `current`
/// alone: what a form needs to show `current` as the chosen level.
pub fn rank_selectors(current: Perms) -> (r: Vec<ArgEntry>)
    ensures
        r.len() == 3,
        forall|i: int|
            0 <= i < 3 ==> (#[trigger] r@[i]).key@ == selector_key(all_levels()[i]) && r@[i].value
                == Arg::Bool(all_levels()[i] == current),
{
    let mut r: Vec<ArgEntry> = Vec::new();
    r.push(ArgEntry::new("admin_selected", Arg::Bool(current == Perms::Admin)));
    r.push(ArgEntry::new("editor_selected", Arg::Bool(current == Perms::Editor)));
    r.push(ArgEntry::new("user_selected", Arg::Bool(current == Perms::User)));
    r
}

/// The level whose name is `perm`; names are matched exactly.
pub fn parse_perm_var(perm: &str) -> (r: Result<PermsWrapper, InvalidPerm>)
    ensures
        match r {
            Ok(w) => perm_name(w.0) == perm@,
            Err(_) => forall|p: Perms| perm_name(p) != perm@,
        },
{
    if same_text(perm, "Admin") {
        Ok(PermsWrapper(Perms::Admin))
    } else if same_text(perm, "Editor") {
        Ok(PermsWrapper(Perms::Editor))
    } else if same_text(perm, "User") {
        Ok(PermsWrapper(Perms::User))
    } else {
        proof {
            assert forall|p: Perms| perm_name(p) != perm@ by {
                match p {
                    Perms::Admin => {},
                    Perms::Editor => {},
                    Perms::User => {},
                }
            }
        }
        Err(InvalidPerm)
    }
}

} // verus!
