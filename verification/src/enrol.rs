//! From what a person supplies to a user that can be stored.

use vstd::prelude::*;
use vstd::utf8::encode_utf8;
use crate::clock::{fresh_id, utc_now};
use crate::codec::{
    hash_password,
    hashable,
    is_salt,
    lemma_salt_alphabet,
    make_salt,
    password_hash,
};
use crate::error::AuthError;
use crate::machine::{enrol_error, profile_present, Enrolment};
use crate::role::Role;
use crate::slug::derive_slug;
use crate::store::{id_index, rekeyed, CredentialStore};
use crate::text::{email_form, is_canonical_email, normalize_email, trim, trimmed};
use crate::user::{InsertableUser, User, UserData, UserView};

verus! {

/// Whether what a person supplied is usable, whatever salt is minted for
/// it: no field is empty after trimming, the trimmed and lowercased address
/// is canonical, and the password is no longer than the hasher accepts.
pub open spec fn usable(name: Seq<char>, email: Seq<char>, password: Seq<char>) -> bool {
    &&& 0 < trimmed(password).len()
    &&& profile_present(name, email)
    &&& is_canonical_email(email_form(email))
    &&& encode_utf8(trimmed(password)).len() <= 0xFFFF_FFFF
}

/// Whether `after` and `r` are what the creation of a user from the
/// enrolment `e`, under the identifier `id`, leaves of `before`: the user is
/// added and handed back, or the error of the enrolment is reported and
/// nothing changes.
pub open spec fn created(
    before: Seq<UserView>,
    after: Seq<UserView>,
    e: Enrolment,
    id: u128,
    role: Role,
    validated: bool,
    r: Result<User, AuthError>,
) -> bool {
    match r {
        Ok(stored) => {
            &&& enrol_error(before, e, id) is None
            &&& stored@ == e.user(id, role, validated)
            &&& after == before.push(stored@)
        },
        Err(err) => enrol_error(before, e, id) == Some(err) && after == before,
    }
}

/// The hasher accepts every salt that was minted.
pub proof fn lemma_salt_is_hashable(password: Seq<char>, salt: Seq<char>)
    requires
        is_salt(salt),
    ensures
        hashable(password, salt) == (encode_utf8(password).len() <= 0xFFFF_FFFF),
{
    lemma_salt_alphabet();
    assert forall|i: int| 0 <= i < salt.len() implies '\0' <= #[trigger] salt[i] <= '\u{7f}' by {
        assert(crate::codec::is_salt_char(salt[i]));
    }
    vstd::utf8::is_ascii_chars_encode_utf8(salt);
}

impl InsertableUser {
    /// Makes the record of a user from what a person supplied, under the
    /// salt and at the second given: the name and the password trimmed, the
    /// address trimmed and lowercased, the slug of the name, the hash of the
    /// password. Fails with `InvalidInput` where a field is empty after
    /// trimming, the address is not canonical, or the hasher does not accept
    /// password and salt.
    pub fn prepare(user_data: &UserData, salt: String, now: i64) -> (r: Result<
        InsertableUser,
        AuthError,
    >)
        ensures
            ({
                let e = Enrolment {
                    name: user_data.user_name@,
                    email: user_data.email@,
                    password: user_data.password@,
                    salt: salt@,
                    now,
                };
                match r {
                    Ok(u) => e.ok() && u.with_id(0) == e.user(
                        0,
                        user_data.role,
                        user_data.validated,
                    ),
                    Err(err) => err == AuthError::InvalidInput && !e.ok(),
                }
            }),
    {
        let name = trim(user_data.user_name.as_str());
        let password = trim(user_data.password.as_str());
        let address = trim(user_data.email.as_str());
        if name.as_str().is_empty() || password.as_str().is_empty() || address.as_str().is_empty() {
            return Err(AuthError::InvalidInput);
        }
        let email = match normalize_email(user_data.email.as_str()) {
            Some(e) => e,
            None => {
                return Err(AuthError::InvalidInput);
            },
        };
        let slug = derive_slug(name.as_str());
        let hash = match hash_password(password.as_str(), salt.as_str()) {
            Some(h) => h,
            None => {
                return Err(AuthError::InvalidInput);
            },
        };
        Ok(
            InsertableUser {
                hash,
                salt,
                email,
                user_name: name,
                slug,
                created_at: now,
                role: user_data.role,
                validated: user_data.validated,
            },
        )
    }

    /// Makes the record of a user from what a person supplied, with a fresh
    /// salt, at the present second. Fails with `InvalidInput` exactly where
    /// the fields are not usable.
    pub fn from_user_data(user_data: &UserData) -> (r: Result<InsertableUser, AuthError>)
        ensures
            match r {
                Ok(u) => {
                    let e = Enrolment {
                        name: user_data.user_name@,
                        email: user_data.email@,
                        password: user_data.password@,
                        salt: u.salt@,
                        now: u.created_at,
                    };
                    &&& usable(user_data.user_name@, user_data.email@, user_data.password@)
                    &&& is_salt(u.salt@)
                    &&& u.with_id(0) == e.user(0, user_data.role, user_data.validated)
                },
                Err(err) => err == AuthError::InvalidInput && !usable(
                    user_data.user_name@,
                    user_data.email@,
                    user_data.password@,
                ),
            },
    {
        let salt = make_salt();
        let now = utc_now();
        proof {
            lemma_salt_is_hashable(trimmed(user_data.password@), salt@);
        }
        InsertableUser::prepare(user_data, salt, now)
    }
}

impl CredentialStore {
    /// Makes the user that `user_data` becomes under the identifier and
    /// salt given, at the second `now`, without storing it. Fails with
    /// `InvalidInput` where a field is empty after trimming, then with
    /// `Conflict` where the identifier, the address or the slug is in use,
    /// then with `InvalidInput` where the address is not canonical or the
    /// hasher does not accept password and salt.
    pub fn check_enrolment(&self, user_data: &UserData, id: u128, salt: String, now: i64) -> (r: Result<
        User,
        AuthError,
    >)
        requires
            self.wf(),
        ensures
            ({
                let e = Enrolment {
                    name: user_data.user_name@,
                    email: user_data.email@,
                    password: user_data.password@,
                    salt: salt@,
                    now,
                };
                match r {
                    Ok(u) => enrol_error(self@, e, id) is None && u@ == e.user(
                        id,
                        user_data.role,
                        user_data.validated,
                    ),
                    Err(err) => enrol_error(self@, e, id) == Some(err),
                }
            }),
    {
        let name = trim(user_data.user_name.as_str());
        let password = trim(user_data.password.as_str());
        let address = trim(user_data.email.as_str());
        if name.as_str().is_empty() || password.as_str().is_empty() || address.as_str().is_empty() {
            return Err(AuthError::InvalidInput);
        }
        let email = address.as_str().to_lowercase();
        let slug = derive_slug(name.as_str());
        if self.is_taken(id, &email, &slug) {
            return Err(AuthError::Conflict);
        }
        match InsertableUser::prepare(user_data, salt, now) {
            Ok(record) => Ok(record.into_user(id)),
            Err(err) => Err(err),
        }
    }

    /// Stores the user that `user_data` makes under the identifier and salt
    /// given, at the second `now`, where `check_enrolment` makes one; a failure
    /// changes nothing. Returns the user as stored.
    pub fn create_with(&mut self, user_data: &UserData, id: u128, salt: String, now: i64) -> (r:
        Result<User, AuthError>)
        requires
            old(self).wf(),
        ensures
            final(self).wf(),
            created(
                old(self)@,
                final(self)@,
                (Enrolment {
                    name: user_data.user_name@,
                    email: user_data.email@,
                    password: user_data.password@,
                    salt: salt@,
                    now,
                }),
                id,
                user_data.role,
                user_data.validated,
                r,
            ),
    {
        let user = match self.check_enrolment(user_data, id, salt, now) {
            Ok(u) => u,
            Err(err) => {
                return Err(err);
            },
        };
        let stored = user.clone();
        match self.insert(user) {
            Ok(_) => Ok(stored),
            Err(err) => Err(err),
        }
    }

    /// Stores the user that `user_data` makes, under a fresh identifier and
    /// a fresh salt, at the present second, as `create_with` does. Returns
    /// the user as stored.
    pub fn create(&mut self, user_data: &UserData) -> (r: Result<User, AuthError>)
        requires
            old(self).wf(),
        ensures
            final(self).wf(),
            exists|e: Enrolment, id: u128|
                {
                    &&& e.name == user_data.user_name@
                    &&& e.email == user_data.email@
                    &&& e.password == user_data.password@
                    &&& is_salt(e.salt)
                    &&& #[trigger] created(
                        old(self)@,
                        final(self)@,
                        e,
                        id,
                        user_data.role,
                        user_data.validated,
                        r,
                    )
                },
            !profile_present(user_data.user_name@, user_data.email@) || trimmed(
                user_data.password@,
            ).len() == 0 ==> r is Err && r->Err_0 == AuthError::InvalidInput,
    {
        let id = fresh_id();
        let salt = make_salt();
        let now = utc_now();
        let ghost e = Enrolment {
            name: user_data.user_name@,
            email: user_data.email@,
            password: user_data.password@,
            salt: salt@,
            now,
        };
        let r = self.create_with(user_data, id, salt, now);
        assert(e.salt == salt@);
        r
    }

    /// Sets the password of the user with identifier `id` under the salt
    /// given. Fails with `NotFound` where there is no such user, and with
    /// `InvalidInput` where the hasher does not accept password and salt; a
    /// failure changes nothing. Returns the user as stored afterwards.
    pub fn update_password_with(&mut self, id: u128, password: &String, salt: String) -> (r: Result<
        User,
        AuthError,
    >)
        requires
            old(self).wf(),
        ensures
            final(self).wf(),
            match id_index(old(self)@, id) {
                None => r is Err && r->Err_0 == AuthError::NotFound && final(self)@ == old(self)@,
                Some(i) => if hashable(password@, salt@) {
                    let u = rekeyed(old(self)@[i], password_hash(password@, salt@), salt@);
                    r is Ok && r->Ok_0@ == u && final(self)@ == old(self)@.update(i, u)
                } else {
                    r is Err && r->Err_0 == AuthError::InvalidInput && final(self)@ == old(self)@
                },
            },
    {
        match self.find(id) {
            Ok(_) => {},
            Err(err) => {
                return Err(err);
            },
        }
        match hash_password(password.as_str(), salt.as_str()) {
            Some(hash) => self.set_password(id, hash, salt),
            None => Err(AuthError::InvalidInput),
        }
    }

    /// Sets the password of the user with identifier `id` under a fresh
    /// salt. Fails with `NotFound` where there is no such user, and with
    /// `InvalidInput` where the password is longer than the hasher accepts;
    /// a failure changes nothing. Returns the user as stored afterwards.
    pub fn update_password(&mut self, id: u128, password: &String) -> (r: Result<User, AuthError>)
        requires
            old(self).wf(),
        ensures
            final(self).wf(),
            match id_index(old(self)@, id) {
                None => r is Err && r->Err_0 == AuthError::NotFound && final(self)@ == old(self)@,
                Some(i) => if encode_utf8(password@).len() <= 0xFFFF_FFFF {
                    &&& r is Ok
                    &&& is_salt(r->Ok_0@.salt)
                    &&& r->Ok_0@ == rekeyed(
                        old(self)@[i],
                        password_hash(password@, r->Ok_0@.salt),
                        r->Ok_0@.salt,
                    )
                    &&& final(self)@ == old(self)@.update(i, r->Ok_0@)
                } else {
                    r is Err && r->Err_0 == AuthError::InvalidInput && final(self)@ == old(self)@
                },
            },
    {
        let salt = make_salt();
        proof {
            lemma_salt_is_hashable(password@, salt@);
        }
        self.update_password_with(id, password, salt)
    }
}

impl User {
    /// A placeholder: a user named `dummy` with a fresh identifier and
    /// nothing else.
    pub fn dummy() -> (u: User)
        ensures
            u@ == (UserView {
                id: u@.id,
                hash: Seq::empty(),
                salt: Seq::empty(),
                email: Seq::empty(),
                user_name: "dummy"@,
                slug: Seq::empty(),
                created_at: 1_000_000_000,
                role: Role::User,
                validated: false,
            }),
    {
        User {
            id: fresh_id(),
            hash: Vec::new(),
            salt: String::new(),
            email: String::new(),
            user_name: "dummy".to_owned(),
            slug: String::new(),
            created_at: 1_000_000_000,
            role: Role::User,
            validated: false,
        }
    }
}

} // verus!
