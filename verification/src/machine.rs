//! The authentication state machine, as a model: the state, and for every
//! operation the error it reports and the state it leaves.

use vstd::prelude::*;
use crate::authz::{names_admin, self_or_admin};
use crate::codec::{hashable, password_hash, password_matches};
use crate::error::AuthError;
use crate::role::{role_named, Role};
use crate::clock::can_expire;
use crate::slug::snake_case_of;
use crate::store::{
    clashes,
    distinct,
    email_index,
    id_index,
    rekeyed,
    slug_index,
    sole_admin,
    taken,
};
use crate::text::{email_form, is_canonical_email, trimmed};
use crate::tokens::{
    email_pos,
    honored,
    issued,
    retained,
    secret_pos,
    unique,
    Rule,
    TokenView,
};
use crate::user::UserView;

verus! {

/// What the service holds.
pub ghost struct State {
    /// The users.
    pub users: Seq<UserView>,
    /// The verification codes.
    pub codes: Seq<TokenView>,
    /// The reset tokens.
    pub resets: Seq<TokenView>,
    /// For the identifier of each user, the password that was set last.
    pub passwords: Map<u128, Seq<char>>,
}

/// What is asked of the profile of every user: a canonical address, a
/// trimmed name that is not empty, and the snake-case form of that name as
/// slug.
pub open spec fn profile_ok(u: UserView) -> bool {
    &&& is_canonical_email(u.email)
    &&& u.user_name.len() > 0
    &&& trimmed(u.user_name) == u.user_name
    &&& u.slug == snake_case_of(u.user_name)
}

/// The stored hash of `u` is the hash, under the stored salt, of the
/// password set last, which is trimmed and not empty.
pub open spec fn password_kept(passwords: Map<u128, Seq<char>>, u: UserView) -> bool {
    &&& passwords.contains_key(u.id)
    &&& passwords[u.id].len() > 0
    &&& trimmed(passwords[u.id]) == passwords[u.id]
    &&& hashable(passwords[u.id], u.salt)
    &&& u.hash == password_hash(passwords[u.id], u.salt)
}

impl State {
    /// The invariant of the service.
    pub open spec fn wf(self) -> bool {
        &&& distinct(self.users)
        &&& unique(self.codes)
        &&& unique(self.resets)
        &&& forall|i: int|
            0 <= i < self.users.len() ==> {
                &&& profile_ok(#[trigger] self.users[i])
                &&& password_kept(self.passwords, self.users[i])
                &&& (self.users[i].validated ==> email_pos(self.codes, self.users[i].email)
                    is None)
            }
    }
}

/// The state of a service that was just made.
pub open spec fn initial() -> State {
    State {
        users: Seq::empty(),
        codes: Seq::empty(),
        resets: Seq::empty(),
        passwords: Map::empty(),
    }
}

/// What a person supplies to become a user, with the material minted for
/// it.
pub ghost struct Enrolment {
    /// The display name as typed.
    pub name: Seq<char>,
    /// The address as typed.
    pub email: Seq<char>,
    /// The password as typed.
    pub password: Seq<char>,
    /// The salt minted for the password.
    pub salt: Seq<char>,
    /// The second of the enrolment.
    pub now: i64,
}

impl Enrolment {
    /// Whether no field is empty after trimming.
    pub open spec fn present(self) -> bool {
        &&& trimmed(self.password).len() > 0
        &&& profile_present(self.name, self.email)
    }

    /// Whether the fields are well formed: the trimmed and lowercased
    /// address is canonical, and the hasher accepts password and salt.
    pub open spec fn sound(self) -> bool {
        &&& is_canonical_email(email_form(self.email))
        &&& hashable(trimmed(self.password), self.salt)
    }

    /// Whether the fields are usable: present and well formed.
    pub open spec fn ok(self) -> bool {
        self.present() && self.sound()
    }

    /// The user that the enrolment makes under the identifier `id`.
    pub open spec fn user(self, id: u128, role: Role, validated: bool) -> UserView {
        UserView {
            id,
            hash: password_hash(trimmed(self.password), self.salt),
            salt: self.salt,
            email: email_form(self.email),
            user_name: trimmed(self.name),
            slug: snake_case_of(trimmed(self.name)),
            created_at: self.now,
            role,
            validated,
        }
    }
}

/// A secret minted for an address, before it has its expiry.
pub ghost struct Minted {
    pub id: u128,
    pub secret: Seq<char>,
}

/// The record of a minted secret for `email`, honored until `ttl` seconds
/// after `now`.
pub open spec fn record_of(m: Minted, email: Seq<char>, now: i64, ttl: u32) -> TokenView {
    TokenView { id: m.id, email, secret: m.secret, expires_at: (now + ttl) as i64 }
}

// ---------------------------------------------------------------- register
/// The error of an enrolment among `users`, if it has one: `InvalidInput`
/// for an empty field, then `Conflict` for an identifier, an address or a
/// slug in use, then `InvalidInput` for a field that is not well formed.
pub open spec fn enrol_error(users: Seq<UserView>, e: Enrolment, id: u128) -> Option<AuthError> {
    if !e.present() {
        Some(AuthError::InvalidInput)
    } else if taken(users, e.user(id, Role::User, false)) {
        Some(AuthError::Conflict)
    } else if !e.sound() {
        Some(AuthError::InvalidInput)
    } else {
        None
    }
}

/// The error of a registration, if it has one: that of the enrolment, or
/// `Internal` where all else is in order and the clock cannot show the
/// expiry of the code.
pub open spec fn register_error(s: State, e: Enrolment, id: u128, ttl: u32) -> Option<AuthError> {
    if enrol_error(s.users, e, id) is Some {
        enrol_error(s.users, e, id)
    } else if !can_expire(e.now, ttl) {
        Some(AuthError::Internal)
    } else {
        None
    }
}

/// The state after a registration: on success the new user is added, not
/// validated, and the verification code is issued for its address.
pub open spec fn register_next(
    s: State,
    e: Enrolment,
    id: u128,
    code: Minted,
    ttl: u32,
) -> State {
    if register_error(s, e, id, ttl) is Some {
        s
    } else {
        let u = e.user(id, Role::User, false);
        State {
            users: s.users.push(u),
            codes: issued(s.codes, record_of(code, u.email, e.now, ttl)),
            passwords: s.passwords.insert(id, trimmed(e.password)),
            ..s
        }
    }
}

// ------------------------------------------------------------ verification
/// The error of a verification, if it has one.
pub open spec fn verify_error(s: State, id: u128, code: Seq<char>, now: i64) -> Option<AuthError> {
    match id_index(s.users, id) {
        None => Some(AuthError::NotFound),
        Some(i) => if s.users[i].validated {
            Some(AuthError::AlreadyValidated)
        } else {
            match email_pos(s.codes, s.users[i].email) {
                None => Some(AuthError::InvalidCode),
                Some(k) => if trimmed(code) != s.codes[k].secret || !honored(s.codes[k], now) {
                    Some(AuthError::InvalidCode)
                } else {
                    None
                },
            }
        },
    }
}

/// The user `u` with a validated address.
pub open spec fn validated_user(u: UserView) -> UserView {
    UserView { validated: true, ..u }
}

/// The state after a verification: on success the user is validated and
/// its code is gone.
pub open spec fn verify_next(s: State, id: u128, code: Seq<char>, now: i64) -> State {
    if verify_error(s, id, code, now) is Some {
        s
    } else {
        let i = id_index(s.users, id)->Some_0;
        State {
            users: s.users.update(i, validated_user(s.users[i])),
            codes: retained(s.codes, Rule::NotEmail(s.users[i].email)),
            ..s
        }
    }
}

/// The error of a request for a new verification code, if it has one;
/// `Internal` where all else is in order and the clock cannot show the
/// expiry of the code.
pub open spec fn resend_error(s: State, id: u128, now: i64, ttl: u32) -> Option<AuthError> {
    match id_index(s.users, id) {
        None => Some(AuthError::NotFound),
        Some(i) => if s.users[i].validated {
            Some(AuthError::AlreadyValidated)
        } else if !can_expire(now, ttl) {
            Some(AuthError::Internal)
        } else {
            None
        },
    }
}

/// The state after a request for a new verification code: on success the
/// new code supersedes the old one.
pub open spec fn resend_next(s: State, id: u128, code: Minted, now: i64, ttl: u32) -> State {
    if resend_error(s, id, now, ttl) is Some {
        s
    } else {
        let i = id_index(s.users, id)->Some_0;
        State { codes: issued(s.codes, record_of(code, s.users[i].email, now, ttl)), ..s }
    }
}

// ------------------------------------------------------------------ login
/// The position of the user that signs in with an address and a password,
/// if they are right.
pub open spec fn login_user(s: State, email: Seq<char>, password: Seq<char>) -> Option<int> {
    match email_index(s.users, email_form(email)) {
        None => None,
        Some(i) => if password_matches(trimmed(password), s.users[i].salt, s.users[i].hash) {
            Some(i)
        } else {
            None
        },
    }
}

// --------------------------------------------------------- password reset
/// Whether a request for a password reset issues a token: the address
/// belongs to a user and the clock can show the expiry of the token.
pub open spec fn reset_is_issued(s: State, email: Seq<char>, now: i64, ttl: u32) -> bool {
    email_index(s.users, email_form(email)) is Some && can_expire(now, ttl)
}

/// The state after a request for a password reset: a token is issued or
/// nothing changes.
pub open spec fn request_reset_next(
    s: State,
    email: Seq<char>,
    token: Minted,
    now: i64,
    ttl: u32,
) -> State {
    if reset_is_issued(s, email, now, ttl) {
        let i = email_index(s.users, email_form(email))->Some_0;
        State { resets: issued(s.resets, record_of(token, s.users[i].email, now, ttl)), ..s }
    } else {
        s
    }
}

/// The error of a password reset, if it has one.
pub open spec fn confirm_reset_error(
    s: State,
    token: Seq<char>,
    password: Seq<char>,
    salt: Seq<char>,
    now: i64,
) -> Option<AuthError> {
    if trimmed(password).len() == 0 || !hashable(trimmed(password), salt) {
        Some(AuthError::InvalidInput)
    } else {
        match secret_pos(s.resets, token) {
            None => Some(AuthError::InvalidToken),
            Some(k) => if !honored(s.resets[k], now) {
                Some(AuthError::InvalidToken)
            } else if email_index(s.users, s.resets[k].email) is None {
                Some(AuthError::NotFound)
            } else {
                None
            },
        }
    }
}

/// The state after a password reset: on success the user has the new hash
/// and salt, and the token is gone.
pub open spec fn confirm_reset_next(
    s: State,
    token: Seq<char>,
    password: Seq<char>,
    salt: Seq<char>,
    now: i64,
) -> State {
    if confirm_reset_error(s, token, password, salt, now) is Some {
        s
    } else {
        let k = secret_pos(s.resets, token)->Some_0;
        let i = email_index(s.users, s.resets[k].email)->Some_0;
        let u = s.users[i];
        State {
            users: s.users.update(i, rekeyed(u, password_hash(trimmed(password), salt), salt)),
            resets: retained(s.resets, Rule::NotEmail(s.resets[k].email)),
            passwords: s.passwords.insert(u.id, trimmed(password)),
            ..s
        }
    }
}

// ---------------------------------------------------------------- profile
/// Whether neither the name nor the address is empty after trimming.
pub open spec fn profile_present(name: Seq<char>, email: Seq<char>) -> bool {
    trimmed(name).len() > 0 && trimmed(email).len() > 0
}

/// Whether a name and an address as typed are those of `u`.
pub open spec fn same_profile(u: UserView, name: Seq<char>, email: Seq<char>) -> bool {
    trimmed(name) == u.user_name && email_form(email) == u.email
}

/// The error of a change of profile, if it has one: `Forbidden`, then
/// `NotFound`, then `InvalidInput` for an empty field, then `Conflict`, then
/// `InvalidInput` for an address that is not canonical, then `Internal`
/// where the address changes and the clock cannot show the expiry of the
/// code. A profile that stays as it is has no error.
pub open spec fn update_profile_error(
    s: State,
    actor_slug: Seq<char>,
    actor_role: Seq<char>,
    target_slug: Seq<char>,
    name: Seq<char>,
    email: Seq<char>,
    now: i64,
    ttl: u32,
) -> Option<AuthError> {
    if !self_or_admin(actor_slug, actor_role, target_slug) {
        Some(AuthError::Forbidden)
    } else {
        match slug_index(s.users, target_slug) {
            None => Some(AuthError::NotFound),
            Some(i) => if !profile_present(name, email) {
                Some(AuthError::InvalidInput)
            } else if same_profile(s.users[i], name, email) {
                None
            } else if clashes(
                s.users,
                i,
                email_form(email),
                snake_case_of(trimmed(name)),
            ) {
                Some(AuthError::Conflict)
            } else if !is_canonical_email(email_form(email)) {
                Some(AuthError::InvalidInput)
            } else if email_form(email) != s.users[i].email && !can_expire(now, ttl) {
                Some(AuthError::Internal)
            } else {
                None
            },
        }
    }
}

/// The user `u` after a change of profile: a new address is not validated.
pub open spec fn reprofiled(u: UserView, name: Seq<char>, email: Seq<char>) -> UserView {
    UserView {
        email: email_form(email),
        user_name: trimmed(name),
        slug: snake_case_of(trimmed(name)),
        validated: u.validated && email_form(email) == u.email,
        ..u
    }
}

/// The state after a change of profile: on success the user has the new
/// name, slug and address, and a verification code is issued for a new
/// address.
pub open spec fn update_profile_next(
    s: State,
    actor_slug: Seq<char>,
    actor_role: Seq<char>,
    target_slug: Seq<char>,
    name: Seq<char>,
    email: Seq<char>,
    code: Minted,
    now: i64,
    ttl: u32,
) -> State {
    if update_profile_error(s, actor_slug, actor_role, target_slug, name, email, now, ttl)
        is Some {
        s
    } else {
        let i = slug_index(s.users, target_slug)->Some_0;
        let u = s.users[i];
        if same_profile(u, name, email) {
            s
        } else {
            State {
                users: s.users.update(i, reprofiled(u, name, email)),
                codes: if email_form(email) == u.email {
                    s.codes
                } else {
                    issued(s.codes, record_of(code, email_form(email), now, ttl))
                },
                ..s
            }
        }
    }
}

/// Whether the text of a form stands for a validated address.
pub open spec fn says_true(validated: Seq<char>) -> bool {
    validated == "true"@
}

/// The error of a change by an administrator, if it has one: `Forbidden`,
/// then `NotFound`, then `InvalidInput` for an empty field or a role that
/// is none, then `LastAdmin`, then `Conflict`, then `InvalidInput` for an
/// address that is not canonical.
pub open spec fn admin_update_error(
    s: State,
    actor_role: Seq<char>,
    target_slug: Seq<char>,
    name: Seq<char>,
    email: Seq<char>,
    role: Seq<char>,
) -> Option<AuthError> {
    if !names_admin(actor_role) {
        Some(AuthError::Forbidden)
    } else {
        match slug_index(s.users, target_slug) {
            None => Some(AuthError::NotFound),
            Some(i) => if !profile_present(name, email) || role_named(role) is None {
                Some(AuthError::InvalidInput)
            } else if role_named(role) == Some(Role::User) && sole_admin(s.users, i) {
                Some(AuthError::LastAdmin)
            } else if clashes(
                s.users,
                i,
                email_form(email),
                snake_case_of(trimmed(name)),
            ) {
                Some(AuthError::Conflict)
            } else if !is_canonical_email(email_form(email)) {
                Some(AuthError::InvalidInput)
            } else {
                None
            },
        }
    }
}

/// The user `u` after a change by an administrator.
pub open spec fn administered(
    u: UserView,
    name: Seq<char>,
    email: Seq<char>,
    role: Role,
    validated: bool,
) -> UserView {
    UserView {
        email: email_form(email),
        user_name: trimmed(name),
        slug: snake_case_of(trimmed(name)),
        role,
        validated,
        ..u
    }
}

/// The state after a change by an administrator: on success the user has
/// the new profile, role and validation, and a validated address has no
/// code.
pub open spec fn admin_update_next(
    s: State,
    actor_role: Seq<char>,
    target_slug: Seq<char>,
    name: Seq<char>,
    email: Seq<char>,
    role: Seq<char>,
    validated: Seq<char>,
) -> State {
    if admin_update_error(s, actor_role, target_slug, name, email, role) is Some {
        s
    } else {
        let i = slug_index(s.users, target_slug)->Some_0;
        let u = administered(
            s.users[i],
            name,
            email,
            role_named(role)->Some_0,
            says_true(validated),
        );
        State {
            users: s.users.update(i, u),
            codes: if u.validated {
                retained(s.codes, Rule::NotEmail(u.email))
            } else {
                s.codes
            },
            ..s
        }
    }
}

// ----------------------------------------------------------------- delete
/// The error of a deletion, if it has one.
pub open spec fn delete_error(
    s: State,
    actor_slug: Seq<char>,
    actor_role: Seq<char>,
    target_slug: Seq<char>,
    confirmation: Seq<char>,
) -> Option<AuthError> {
    if !self_or_admin(actor_slug, actor_role, target_slug) {
        Some(AuthError::Forbidden)
    } else {
        match slug_index(s.users, target_slug) {
            None => Some(AuthError::NotFound),
            Some(i) => if trimmed(confirmation) != s.users[i].user_name {
                Some(AuthError::ConfirmationMismatch)
            } else {
                None
            },
        }
    }
}

/// The state after a deletion: on success the user is gone.
pub open spec fn delete_next(
    s: State,
    actor_slug: Seq<char>,
    actor_role: Seq<char>,
    target_slug: Seq<char>,
    confirmation: Seq<char>,
) -> State {
    if delete_error(s, actor_slug, actor_role, target_slug, confirmation) is Some {
        s
    } else {
        let i = slug_index(s.users, target_slug)->Some_0;
        State {
            users: s.users.remove(i),
            passwords: s.passwords.remove(s.users[i].id),
            ..s
        }
    }
}

// -------------------------------------------------------------- bootstrap
/// The error of the creation of the first administrator, if it has one:
/// none where the address belongs to a user, and that of the enrolment
/// otherwise.
pub open spec fn bootstrap_error(s: State, e: Enrolment, id: u128) -> Option<AuthError> {
    if email_index(s.users, email_form(e.email)) is Some {
        None
    } else {
        enrol_error(s.users, e, id)
    }
}

/// Whether the creation of the first administrator adds a user: it does
/// not where the address belongs to one.
pub open spec fn bootstrap_creates(s: State, e: Enrolment, id: u128) -> bool {
    bootstrap_error(s, e, id) is None && email_index(s.users, email_form(e.email)) is None
}

/// The state after the creation of the first administrator.
pub open spec fn bootstrap_next(s: State, e: Enrolment, id: u128) -> State {
    if !bootstrap_creates(s, e, id) {
        s
    } else {
        let u = e.user(id, Role::Admin, true);
        State {
            users: s.users.push(u),
            codes: retained(s.codes, Rule::NotEmail(u.email)),
            passwords: s.passwords.insert(id, trimmed(e.password)),
            ..s
        }
    }
}

// ------------------------------------------------------------------ purge
/// The state after the records that are no longer honored were removed.
pub open spec fn purge_next(s: State, now: i64) -> State {
    State {
        codes: retained(s.codes, Rule::LiveAt(now)),
        resets: retained(s.resets, Rule::LiveAt(now)),
        ..s
    }
}

} // verus!
