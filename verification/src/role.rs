//! The roles a user can have.

use vstd::prelude::*;
use crate::text::{text_eq, trim, trimmed, unicode_lowercase};

verus! {

/// The role of a user: the set is closed.
#[derive(Clone, Copy, Debug, PartialEq, Eq, Structural)]
pub enum Role {
    /// May change and delete every user.
    Admin,
    /// May change and delete only itself.
    User,
}

/// The name of the administrator role.
pub open spec fn admin_name() -> Seq<char> {
    "admin"@
}

/// The name of the ordinary role.
pub open spec fn user_name() -> Seq<char> {
    "user"@
}

/// The role that a text names, after trimming and lowercasing.
pub open spec fn role_named(raw: Seq<char>) -> Option<Role> {
    let t = unicode_lowercase(trimmed(raw));
    if t == admin_name() {
        Some(Role::Admin)
    } else if t == user_name() {
        Some(Role::User)
    } else {
        None
    }
}

impl Role {
    /// The name of the role.
    pub open spec fn name(self) -> Seq<char> {
        match self {
            Role::Admin => admin_name(),
            Role::User => user_name(),
        }
    }

    /// The name of the role, as it is written in a session or a form.
    pub fn as_str(self) -> (s: &'static str)
        ensures
            s@ == self.name(),
    {
        match self {
            Role::Admin => "admin",
            Role::User => "user",
        }
    }

    /// Reads a role from a text; white space around it and the case of its
    /// letters do not count.
    pub fn parse(raw: &str) -> (r: Option<Role>)
        ensures
            r == role_named(raw@),
    {
        let t = trim(raw);
        let l = t.as_str().to_lowercase();
        if text_eq(l.as_str(), "admin") {
            Some(Role::Admin)
        } else if text_eq(l.as_str(), "user") {
            Some(Role::User)
        } else {
            None
        }
    }

    /// Tells whether this is the administrator role.
    pub fn is_admin(self) -> (b: bool)
        ensures
            b == (self == Role::Admin),
    {
        match self {
            Role::Admin => true,
            Role::User => false,
        }
    }
}

} // verus!
