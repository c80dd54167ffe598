//! The credentialed user and the records derived from it.

use vstd::prelude::*;
use crate::role::Role;

verus! {

/// A user as the contracts see it: every text by its characters.
pub ghost struct UserView {
    pub id: u128,
    pub hash: Seq<u8>,
    pub salt: Seq<char>,
    pub email: Seq<char>,
    pub user_name: Seq<char>,
    pub slug: Seq<char>,
    pub created_at: i64,
    pub role: Role,
    pub validated: bool,
}

/// The credentialed user.
#[derive(Debug)]
pub struct User {
    /// The identifier: 128 bits.
    pub id: u128,
    /// The stored hash of the password under `salt`.
    pub hash: Vec<u8>,
    pub salt: String,
    /// The address, in canonical form.
    pub email: String,
    /// The display name.
    pub user_name: String,
    /// The public handle, derived from the display name.
    pub slug: String,
    /// The second of creation, in UTC.
    pub created_at: i64,
    pub role: Role,
    /// Whether the address was confirmed by a verification code.
    pub validated: bool,
}

impl View for User {
    type V = UserView;

    open spec fn view(&self) -> UserView {
        UserView {
            id: self.id,
            hash: self.hash@,
            salt: self.salt@,
            email: self.email@,
            user_name: self.user_name@,
            slug: self.slug@,
            created_at: self.created_at,
            role: self.role,
            validated: self.validated,
        }
    }
}

impl Clone for User {
    fn clone(&self) -> (r: Self)
        ensures
            r@ == self@,
    {
        let hash = self.hash.clone();
        assert(hash@ =~= self.hash@);
        User {
            id: self.id,
            hash,
            salt: self.salt.clone(),
            email: self.email.clone(),
            user_name: self.user_name.clone(),
            slug: self.slug.clone(),
            created_at: self.created_at,
            role: self.role,
            validated: self.validated,
        }
    }
}

/// What a person supplies to become a user.
#[derive(Debug)]
pub struct UserData {
    pub user_name: String,
    pub email: String,
    pub password: String,
    pub role: Role,
    pub validated: bool,
}

/// A user that is ready to be stored: all but the identifier.
#[derive(Debug)]
pub struct InsertableUser {
    pub hash: Vec<u8>,
    pub salt: String,
    pub email: String,
    pub user_name: String,
    pub slug: String,
    pub created_at: i64,
    pub role: Role,
    pub validated: bool,
}

impl InsertableUser {
    /// The user that this record becomes under the identifier `id`.
    pub open spec fn with_id(self, id: u128) -> UserView {
        UserView {
            id,
            hash: self.hash@,
            salt: self.salt@,
            email: self.email@,
            user_name: self.user_name@,
            slug: self.slug@,
            created_at: self.created_at,
            role: self.role,
            validated: self.validated,
        }
    }

    /// Gives the record its identifier.
    pub fn into_user(self, id: u128) -> (u: User)
        ensures
            u@ == self.with_id(id),
    {
        User {
            id,
            hash: self.hash,
            salt: self.salt,
            email: self.email,
            user_name: self.user_name,
            slug: self.slug,
            created_at: self.created_at,
            role: self.role,
            validated: self.validated,
        }
    }
}

/// What a session needs to know of a user.
#[derive(Debug)]
pub struct SlimUser {
    pub user_name: String,
    pub email: String,
    pub slug: String,
    pub role: Role,
}

impl SlimUser {
    /// Whether this record shows the name, address, slug and role of `u`.
    pub open spec fn shows(self, u: UserView) -> bool {
        &&& self.user_name@ == u.user_name
        &&& self.email@ == u.email
        &&& self.slug@ == u.slug
        &&& self.role == u.role
    }
}

impl Clone for SlimUser {
    fn clone(&self) -> (r: Self)
        ensures
            r == *self,
    {
        SlimUser {
            user_name: self.user_name.clone(),
            email: self.email.clone(),
            slug: self.slug.clone(),
            role: self.role,
        }
    }
}

impl From<User> for SlimUser {
    fn from(user: User) -> (r: SlimUser) {
        SlimUser {
            user_name: user.user_name,
            email: user.email,
            slug: user.slug,
            role: user.role,
        }
    }
}

impl vstd::std_specs::convert::FromSpecImpl<User> for SlimUser {
    open spec fn obeys_from_spec() -> bool {
        true
    }

    open spec fn from_spec(user: User) -> SlimUser {
        SlimUser { user_name: user.user_name, email: user.email, slug: user.slug, role: user.role }
    }
}

/// The user of a session, if somebody is signed in.
#[derive(Debug)]
pub struct LoggedUser(pub Option<SlimUser>);

impl From<SlimUser> for LoggedUser {
    fn from(slim_user: SlimUser) -> (r: LoggedUser) {
        LoggedUser(Some(slim_user))
    }
}

impl vstd::std_specs::convert::FromSpecImpl<SlimUser> for LoggedUser {
    open spec fn obeys_from_spec() -> bool {
        true
    }

    open spec fn from_spec(slim_user: SlimUser) -> LoggedUser {
        LoggedUser(Some(slim_user))
    }
}

impl Default for LoggedUser {
    fn default() -> (r: LoggedUser)
        ensures
            r.0 is None,
    {
        LoggedUser(None)
    }
}

} // verus!
