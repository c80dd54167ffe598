//! What holds of every state of the service and of every run of its
//! operations.

use vstd::prelude::*;
use crate::clock::can_expire;
use crate::codec::{hashable, password_hash, password_matches};
use crate::error::AuthError;
use crate::authz::self_or_admin;
use crate::invariants::{
    lemma_bootstrap_wf,
    lemma_confirm_reset_wf,
    lemma_register_wf,
    lemma_request_reset_wf,
    lemma_resend_wf,
    lemma_verify_wf,
};
use crate::machine::{
    admin_update_next,
    bootstrap_error,
    bootstrap_next,
    confirm_reset_error,
    confirm_reset_next,
    delete_error,
    delete_next,
    login_user,
    profile_present,
    purge_next,
    record_of,
    register_error,
    register_next,
    request_reset_next,
    resend_error,
    resend_next,
    same_profile,
    update_profile_error,
    update_profile_next,
    verify_error,
    verify_next,
    Enrolment,
    Minted,
    State,
};
use crate::role::Role;
use crate::slug::{slug_of, snake_case_of};
use crate::store::{
    email_index,
    has_admin,
    id_index,
    lemma_found_at,
    slug_index,
    sole_admin,
    taken,
};
use crate::text::{email_form, trimmed, unicode_lowercase};
use crate::tokens::{email_pos, lemma_issued, lemma_token_found_at, secret_pos};
use crate::user::UserView;

verus! {

/// The address of every user is its own trimmed and lowercased form, and
/// the slug of every user is the snake-case form of its name.
pub proof fn law_profiles_are_canonical(s: State, i: int)
    requires
        s.wf(),
        0 <= i < s.users.len(),
    ensures
        s.users[i].email == unicode_lowercase(trimmed(s.users[i].email)),
        s.users[i].slug == snake_case_of(s.users[i].user_name),
{
}

/// A candidate password is accepted for a user exactly when the hasher
/// gives for it, under the salt of the user, the hash of the password that
/// was set last; that password itself is accepted, and signs the user in.
pub proof fn law_last_password_is_accepted(s: State, i: int, candidate: Seq<char>)
    requires
        s.wf(),
        0 <= i < s.users.len(),
    ensures
        ({
            let u = s.users[i];
            let current = s.passwords[u.id];
            &&& password_matches(current, u.salt, u.hash)
            &&& password_matches(candidate, u.salt, u.hash) <==> hashable(candidate, u.salt)
                && password_hash(candidate, u.salt) == password_hash(current, u.salt)
            &&& login_user(s, u.email, current) == Some(i)
        }),
{
    lemma_found_at(s.users, i);
}

/// No two users share an identifier, an address or a slug.
pub proof fn law_users_are_distinct(s: State, i: int, j: int)
    requires
        s.wf(),
        0 <= i < s.users.len(),
        0 <= j < s.users.len(),
        i != j,
    ensures
        s.users[i].id != s.users[j].id,
        s.users[i].email != s.users[j].email,
        s.users[i].slug != s.users[j].slug,
{
    if i < j {
        assert(s.users[i].id != s.users[j].id);
    } else {
        assert(s.users[j].id != s.users[i].id);
    }
}

/// Where a user is replaced by one of the same role, or the administrator
/// replaced is not the only one, or the new role is that of an
/// administrator, an administrator remains.
proof fn lemma_admin_after_update(users: Seq<UserView>, i: int, u: UserView)
    requires
        has_admin(users),
        0 <= i < users.len(),
        u.role == Role::Admin || u.role == users[i].role || !sole_admin(users, i),
    ensures
        has_admin(users.update(i, u)),
{
    let next = users.update(i, u);
    let k = choose|k: int| 0 <= k < users.len() && (#[trigger] users[k]).role == Role::Admin;
    if u.role == Role::Admin {
        assert(next[i].role == Role::Admin);
    } else if k != i {
        assert(next[k].role == Role::Admin);
    } else {
        let j = choose|j: int|
            0 <= j < users.len() && j != i && (#[trigger] users[j]).role == Role::Admin;
        assert(next[j].role == Role::Admin);
    }
}

/// An administrator remains after a registration, a verification, a
/// request for a code or a token, a password reset, a change of profile, a
/// change by an administrator, the creation of the first administrator and
/// the removal of what is no longer honored.
pub proof fn law_admin_remains(
    s: State,
    e: Enrolment,
    id: u128,
    m: Minted,
    now: i64,
    ttl: u32,
    actor_slug: Seq<char>,
    actor_role: Seq<char>,
    target_slug: Seq<char>,
    typed: Seq<char>,
    role: Seq<char>,
    validated: Seq<char>,
)
    requires
        s.wf(),
        has_admin(s.users),
    ensures
        has_admin(register_next(s, e, id, m, ttl).users),
        has_admin(verify_next(s, id, typed, now).users),
        has_admin(resend_next(s, id, m, now, ttl).users),
        has_admin(request_reset_next(s, e.email, m, now, ttl).users),
        has_admin(confirm_reset_next(s, typed, e.password, e.salt, now).users),
        has_admin(
            update_profile_next(s, actor_slug, actor_role, target_slug, e.name, e.email, m, now, ttl).users,
        ),
        has_admin(
            admin_update_next(s, actor_role, target_slug, e.name, e.email, role, validated).users,
        ),
        has_admin(bootstrap_next(s, e, id).users),
        has_admin(purge_next(s, now).users),
{
    let k = choose|k: int| 0 <= k < s.users.len() && (#[trigger] s.users[k]).role == Role::Admin;
    let registered = register_next(s, e, id, m, ttl).users;
    assert(registered[k].role == Role::Admin);
    let created = bootstrap_next(s, e, id).users;
    assert(created[k].role == Role::Admin);
    let verified = verify_next(s, id, typed, now);
    if verify_error(s, id, typed, now) is None {
        let i = id_index(s.users, id)->Some_0;
        lemma_admin_after_update(s.users, i, verified.users[i]);
        assert(verified.users =~= s.users.update(i, verified.users[i]));
    }
    let reset = confirm_reset_next(s, typed, e.password, e.salt, now);
    if confirm_reset_error(s, typed, e.password, e.salt, now) is None {
        let t = secret_pos(s.resets, typed)->Some_0;
        let i = email_index(s.users, s.resets[t].email)->Some_0;
        lemma_admin_after_update(s.users, i, reset.users[i]);
        assert(reset.users =~= s.users.update(i, reset.users[i]));
    }
    let changed = update_profile_next(
        s,
        actor_slug,
        actor_role,
        target_slug,
        e.name,
        e.email,
        m,
        now,
        ttl,
    );
    if changed.users != s.users {
        let i = slug_index(s.users, target_slug)->Some_0;
        lemma_admin_after_update(s.users, i, changed.users[i]);
        assert(changed.users =~= s.users.update(i, changed.users[i]));
    }
    let ruled = admin_update_next(s, actor_role, target_slug, e.name, e.email, role, validated);
    if ruled.users != s.users {
        let i = slug_index(s.users, target_slug)->Some_0;
        lemma_admin_after_update(s.users, i, ruled.users[i]);
        assert(ruled.users =~= s.users.update(i, ruled.users[i]));
    }
}

/// Where the first administrator is created, there is an administrator.
pub proof fn law_bootstrap_gives_admin(s: State, e: Enrolment, id: u128)
    requires
        crate::machine::bootstrap_creates(s, e, id),
    ensures
        has_admin(bootstrap_next(s, e, id).users),
{
    let next = bootstrap_next(s, e, id).users;
    assert(next[s.users.len() as int].role == Role::Admin);
}

/// An administrator remains after a deletion, unless the deletion removes
/// the only one.
pub proof fn law_admin_remains_after_delete(
    s: State,
    actor_slug: Seq<char>,
    actor_role: Seq<char>,
    target_slug: Seq<char>,
    confirmation: Seq<char>,
)
    requires
        s.wf(),
        has_admin(s.users),
        !(delete_error(s, actor_slug, actor_role, target_slug, confirmation) is None && sole_admin(
            s.users,
            slug_index(s.users, target_slug)->Some_0,
        )),
    ensures
        has_admin(delete_next(s, actor_slug, actor_role, target_slug, confirmation).users),
{
    if delete_error(s, actor_slug, actor_role, target_slug, confirmation) is None {
        let i = slug_index(s.users, target_slug)->Some_0;
        let next = s.users.remove(i);
        let k = choose|k: int| 0 <= k < s.users.len() && (#[trigger] s.users[k]).role == Role::Admin;
        let j = if k != i {
            k
        } else {
            choose|j: int|
                0 <= j < s.users.len() && j != i && (#[trigger] s.users[j]).role == Role::Admin
        };
        if j < i {
            assert(next[j].role == Role::Admin);
        } else {
            assert(next[j - 1] == s.users[j]);
            assert(next[j - 1].role == Role::Admin);
        }
    }
}

/// A registration whose fields are present and whose address or slug
/// belongs to a user is a conflict, and changes nothing.
pub proof fn law_taken_is_conflict(
    s: State,
    e: Enrolment,
    id: u128,
    code: Minted,
    ttl: u32,
    j: int,
)
    requires
        e.present(),
        0 <= j < s.users.len(),
        s.users[j].email == email_form(e.email) || s.users[j].slug == snake_case_of(
            trimmed(e.name),
        ),
    ensures
        register_error(s, e, id, ttl) == Some(AuthError::Conflict),
        register_next(s, e, id, code, ttl) == s,
{
}

/// A change of profile whose fields are present and whose new address or
/// new slug belongs to another user is a conflict, and changes nothing.
pub proof fn law_profile_clash_is_conflict(
    s: State,
    actor_slug: Seq<char>,
    actor_role: Seq<char>,
    target_slug: Seq<char>,
    name: Seq<char>,
    email: Seq<char>,
    code: Minted,
    now: i64,
    ttl: u32,
    j: int,
)
    requires
        s.wf(),
        self_or_admin(actor_slug, actor_role, target_slug),
        slug_index(s.users, target_slug) is Some,
        profile_present(name, email),
        0 <= j < s.users.len(),
        j != slug_index(s.users, target_slug)->Some_0,
        s.users[j].email == email_form(email) || s.users[j].slug == snake_case_of(trimmed(name)),
    ensures
        update_profile_error(s, actor_slug, actor_role, target_slug, name, email, now, ttl) == Some(
            AuthError::Conflict,
        ),
        update_profile_next(s, actor_slug, actor_role, target_slug, name, email, code, now, ttl)
            == s,
{
    let i = slug_index(s.users, target_slug)->Some_0;
    if same_profile(s.users[i], name, email) {
        law_users_are_distinct(s, i, j);
    }
}

/// Where the fields are usable and the identifier, the address and the
/// slug are free, the first administrator is created: one user is added,
/// an administrator with a validated address, and it signs in with the
/// address and the password given.
pub proof fn law_bootstrap_creates_admin(s: State, e: Enrolment, id: u128)
    requires
        s.wf(),
        e.ok(),
        !taken(s.users, e.user(id, Role::Admin, true)),
    ensures
        ({
            let next = bootstrap_next(s, e, id);
            let u = e.user(id, Role::Admin, true);
            &&& bootstrap_error(s, e, id) is None
            &&& next.users == s.users.push(u)
            &&& u.role == Role::Admin && u.validated
            &&& password_matches(trimmed(e.password), u.salt, u.hash)
            &&& login_user(next, e.email, e.password) == Some(s.users.len() as int)
        }),
{
    let next = bootstrap_next(s, e, id);
    lemma_bootstrap_wf(s, e, id);
    lemma_found_at(next.users, s.users.len() as int);
}

/// A verification code whose last second has passed validates nothing,
/// and a reset token whose last second has passed resets nothing: the code
/// is the one held for the address of the user, the token the newest record
/// with the secret given.
pub proof fn law_expired_is_not_honored(
    s: State,
    id: u128,
    typed: Seq<char>,
    password: Seq<char>,
    salt: Seq<char>,
    now: i64,
)
    requires
        s.wf(),
    ensures
        verify_error(s, id, typed, now) is None ==> {
            let u = s.users[id_index(s.users, id)->Some_0];
            let k = email_pos(s.codes, u.email)->Some_0;
            now <= s.codes[k].expires_at
        },
        forall|k: int|
            0 <= k < s.codes.len() && id_index(s.users, id) is Some && (#[trigger] s.codes[k]).email
                == s.users[id_index(s.users, id)->Some_0].email && s.codes[k].expires_at < now
                ==> verify_error(s, id, typed, now) is Some,
        secret_pos(s.resets, typed) is Some && s.resets[secret_pos(
            s.resets,
            typed,
        )->Some_0].expires_at < now ==> confirm_reset_error(s, typed, password, salt, now)
            is Some,
{
    assert forall|k: int|
        0 <= k < s.codes.len() && id_index(s.users, id) is Some && (#[trigger] s.codes[k]).email
            == s.users[id_index(s.users, id)->Some_0].email && s.codes[k].expires_at
            < now implies verify_error(s, id, typed, now) is Some by {
        lemma_token_found_at(s.codes, k);
    }
}

/// Slug derivation is idempotent: the slug of a slug is that slug.
pub proof fn law_slug_is_idempotent(name: Seq<char>)
    ensures
        match slug_of(name) {
            Some(s) => slug_of(s) == Some(s),
            None => true,
        },
{
}

/// After a registration, the code that was issued validates the address
/// while it is honored; every later verification reports
/// `AlreadyValidated` and changes nothing.
pub proof fn law_register_then_verify(
    s: State,
    e: Enrolment,
    id: u128,
    code: Minted,
    ttl: u32,
    typed: Seq<char>,
    at: i64,
    again: Seq<char>,
    later: i64,
)
    requires
        s.wf(),
        register_error(s, e, id, ttl) is None,
        trimmed(typed) == code.secret,
        at <= e.now + ttl,
    ensures
        ({
            let s1 = register_next(s, e, id, code, ttl);
            let s2 = verify_next(s1, id, typed, at);
            &&& verify_error(s1, id, typed, at) is None
            &&& id_index(s2.users, id) is Some
            &&& s2.users[id_index(s2.users, id)->Some_0].validated
            &&& verify_error(s2, id, again, later) == Some(AuthError::AlreadyValidated)
            &&& verify_next(s2, id, again, later) == s2
        }),
{
    let s1 = register_next(s, e, id, code, ttl);
    let last = s.users.len() as int;
    let u = s1.users[last];
    lemma_register_wf(s, e, id, code, ttl);
    lemma_found_at(s1.users, last);
    lemma_issued(s.codes, record_of(code, u.email, e.now, ttl));
    assert(verify_error(s1, id, typed, at) is None);
    let s2 = verify_next(s1, id, typed, at);
    lemma_verify_wf(s1, id, typed, at);
    lemma_found_at(s2.users, last);
}

/// After a request for a password reset and its confirmation with a new
/// password, the user signs in with the new password; a password for which
/// the hasher gives another hash is refused.
pub proof fn law_reset_then_login(
    s: State,
    email: Seq<char>,
    token: Minted,
    ttl: u32,
    now: i64,
    password: Seq<char>,
    salt: Seq<char>,
    at: i64,
    other: Seq<char>,
)
    requires
        s.wf(),
        can_expire(now, ttl),
        email_index(s.users, email_form(email)) is Some,
        trimmed(password).len() > 0,
        hashable(trimmed(password), salt),
        at <= now + ttl,
    ensures
        ({
            let s1 = request_reset_next(s, email, token, now, ttl);
            let s2 = confirm_reset_next(s1, token.secret, password, salt, at);
            &&& confirm_reset_error(s1, token.secret, password, salt, at) is None
            &&& login_user(s2, email, password) is Some
            &&& password_hash(trimmed(other), salt) != password_hash(trimmed(password), salt)
                ==> login_user(s2, email, other) is None
        }),
{
    let i = email_index(s.users, email_form(email))->Some_0;
    let u = s.users[i];
    let rec = record_of(token, u.email, now, ttl);
    let s1 = request_reset_next(s, email, token, now, ttl);
    lemma_request_reset_wf(s, email, token, now, ttl);
    lemma_issued(s.resets, rec);
    lemma_found_at(s.users, i);
    assert(confirm_reset_error(s1, token.secret, password, salt, at) is None);
    let s2 = confirm_reset_next(s1, token.secret, password, salt, at);
    lemma_confirm_reset_wf(s1, token.secret, password, salt, at);
    lemma_found_at(s2.users, i);
}

/// After two requests for a verification code in a row, exactly one code
/// is held for the address of the user: the second.
pub proof fn law_second_code_supersedes(
    s: State,
    id: u128,
    first: Minted,
    now1: i64,
    second: Minted,
    now2: i64,
    ttl: u32,
)
    requires
        s.wf(),
        resend_error(s, id, now1, ttl) is None,
        resend_error(s, id, now2, ttl) is None,
    ensures
        ({
            let s2 = resend_next(resend_next(s, id, first, now1, ttl), id, second, now2, ttl);
            let email = s.users[id_index(s.users, id)->Some_0].email;
            let last = s2.codes.len() - 1;
            &&& s2.codes.len() > 0
            &&& s2.codes[last] == record_of(second, email, now2, ttl)
            &&& forall|k: int| 0 <= k < last ==> (#[trigger] s2.codes[k]).email != email
        }),
{
    let s1 = resend_next(s, id, first, now1, ttl);
    let s2 = resend_next(s1, id, second, now2, ttl);
    let email = s.users[id_index(s.users, id)->Some_0].email;
    lemma_resend_wf(s, id, first, now1, ttl);
    lemma_issued(s1.codes, record_of(second, email, now2, ttl));
    let last = s2.codes.len() - 1;
    assert forall|k: int| 0 <= k < last implies (#[trigger] s2.codes[k]).email != email by {
        assert(s2.codes[k].email != s2.codes[last].email);
    }
}

} // verus!
