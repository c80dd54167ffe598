//! What the service hands back, for each operation that takes minted
//! material: the result that belongs to the state before the call and to
//! what was supplied and minted.

use vstd::prelude::*;
use crate::error::AuthError;
use crate::machine::{
    bootstrap_creates,
    bootstrap_error,
    confirm_reset_error,
    register_error,
    reset_is_issued,
    reprofiled,
    resend_error,
    same_profile,
    update_profile_error,
    validated_user,
    verify_error,
    Enrolment,
    State,
};
use crate::outcome::{MailKind, MailRequest, ProfileChange, Registration, SessionAssertion, SessionChange};
use crate::role::Role;
use crate::store::{email_index, id_index, slug_index};
use crate::text::email_form;
use crate::tokens::secret_pos;
use crate::user::User;

verus! {

/// The result of a registration: the new user, a session bound to its
/// slug and the mail with its code, or the error of the registration.
pub open spec fn register_result(
    s: State,
    base_url: Seq<char>,
    e: Enrolment,
    id: u128,
    ttl: u32,
    code: Seq<char>,
    r: Result<Registration, AuthError>,
) -> bool {
    match r {
        Ok(reg) => {
            &&& register_error(s, e, id, ttl) is None
            &&& reg.user@ == e.user(id, Role::User, false)
            &&& reg.session.slug@ == reg.user@.slug
            &&& reg.mail.carries(MailKind::Verification, reg.user@.email, code, base_url)
        },
        Err(err) => register_error(s, e, id, ttl) == Some(err),
    }
}

/// The result of a verification: the user, validated, or the error of the
/// verification.
pub open spec fn verify_result(
    s: State,
    id: u128,
    code: Seq<char>,
    now: i64,
    r: Result<User, AuthError>,
) -> bool {
    match r {
        Ok(u) => {
            &&& verify_error(s, id, code, now) is None
            &&& u@ == validated_user(s.users[id_index(s.users, id)->Some_0])
        },
        Err(err) => verify_error(s, id, code, now) == Some(err),
    }
}

/// The result of a request for a new verification code: the mail with the
/// code, or the error of the request.
pub open spec fn resend_result(
    s: State,
    base_url: Seq<char>,
    id: u128,
    now: i64,
    ttl: u32,
    code: Seq<char>,
    r: Result<MailRequest, AuthError>,
) -> bool {
    match r {
        Ok(mail) => {
            &&& resend_error(s, id, now, ttl) is None
            &&& mail.carries(
                MailKind::Verification,
                s.users[id_index(s.users, id)->Some_0].email,
                code,
                base_url,
            )
        },
        Err(err) => resend_error(s, id, now, ttl) == Some(err),
    }
}

/// The result of a request for a password reset: the mail with the token
/// where one is issued, and no mail otherwise.
pub open spec fn request_reset_result(
    s: State,
    base_url: Seq<char>,
    email: Seq<char>,
    now: i64,
    ttl: u32,
    token: Seq<char>,
    r: Option<MailRequest>,
) -> bool {
    if reset_is_issued(s, email, now, ttl) {
        r is Some && r->Some_0.carries(
            MailKind::PasswordReset,
            s.users[email_index(s.users, email_form(email))->Some_0].email,
            token,
            base_url,
        )
    } else {
        r is None
    }
}

/// The result of a password reset: a session bound to the slug of the
/// user, or the error of the reset.
pub open spec fn confirm_reset_result(
    s: State,
    token: Seq<char>,
    password: Seq<char>,
    salt: Seq<char>,
    now: i64,
    r: Result<SessionAssertion, AuthError>,
) -> bool {
    match r {
        Ok(session) => {
            let k = secret_pos(s.resets, token)->Some_0;
            let i = email_index(s.users, s.resets[k].email)->Some_0;
            &&& confirm_reset_error(s, token, password, salt, now) is None
            &&& session.slug@ == s.users[i].slug
        },
        Err(err) => confirm_reset_error(s, token, password, salt, now) == Some(err),
    }
}

/// The result of a change of profile: the user as stored afterwards,
/// whether it changed, a session bound to the new slug where the actor
/// changed its own name, and the mail with the code where the address
/// changed; or the error of the change.
pub open spec fn update_profile_result(
    s: State,
    base_url: Seq<char>,
    actor_slug: Seq<char>,
    actor_role: Seq<char>,
    target_slug: Seq<char>,
    name: Seq<char>,
    email: Seq<char>,
    now: i64,
    ttl: u32,
    code: Seq<char>,
    r: Result<ProfileChange, AuthError>,
) -> bool {
    match r {
        Ok(change) => {
            let u = s.users[slug_index(s.users, target_slug)->Some_0];
            let next = reprofiled(u, name, email);
            let rebinds = next.user_name != u.user_name && actor_slug == target_slug;
            &&& update_profile_error(
                s,
                actor_slug,
                actor_role,
                target_slug,
                name,
                email,
                now,
                ttl,
            ) is None
            &&& change.changed == !same_profile(u, name, email)
            &&& change.user@ == if change.changed {
                next
            } else {
                u
            }
            &&& match change.session {
                SessionChange::Rebind(a) => rebinds && a.slug@ == next.slug,
                SessionChange::Keep => !rebinds,
                SessionChange::Forget => false,
            }
            &&& match change.mail {
                Some(mail) => next.email != u.email && mail.carries(
                    MailKind::Verification,
                    next.email,
                    code,
                    base_url,
                ),
                None => next.email == u.email,
            }
        },
        Err(err) => update_profile_error(
            s,
            actor_slug,
            actor_role,
            target_slug,
            name,
            email,
            now,
            ttl,
        ) == Some(err),
    }
}

/// The result of the creation of the first administrator: whether a user
/// was created, or the error of the creation.
pub open spec fn bootstrap_result(s: State, e: Enrolment, id: u128, r: Result<bool, AuthError>) -> bool {
    match r {
        Ok(created) => bootstrap_error(s, e, id) is None && created == bootstrap_creates(s, e, id),
        Err(err) => bootstrap_error(s, e, id) == Some(err),
    }
}

} // verus!
