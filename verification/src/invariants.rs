//! Every operation of the state machine keeps the invariant of the state.

use vstd::prelude::*;
use crate::machine::{
    admin_update_error,
    admin_update_next,
    administered,
    bootstrap_creates,
    bootstrap_next,
    confirm_reset_error,
    confirm_reset_next,
    delete_error,
    delete_next,
    password_kept,
    profile_ok,
    purge_next,
    record_of,
    register_error,
    register_next,
    profile_present,
    reprofiled,
    reset_is_issued,
    request_reset_next,
    resend_error,
    resend_next,
    same_profile,
    says_true,
    update_profile_error,
    update_profile_next,
    validated_user,
    verify_error,
    verify_next,
    Enrolment,
    Minted,
    State,
};
use crate::role::Role;
use crate::store::{
    email_index,
    id_index,
    lemma_push_distinct,
    lemma_remove_distinct,
    lemma_same_keys_no_clash,
    lemma_update_distinct,
    rekeyed,
    slug_index,
};
use crate::text::{email_form, lemma_trimmed_idempotent, trimmed};
use crate::tokens::{
    email_pos,
    issued,
    lemma_issued,
    lemma_retained,
    retained,
    Rule,
    TokenView,
};
use crate::user::UserView;

verus! {

/// An address without a record has none after any removal.
pub proof fn lemma_absent_after_retained(codes: Seq<TokenView>, rule: Rule, email: Seq<char>)
    requires
        email_pos(codes, email) is None,
    ensures
        email_pos(retained(codes, rule), email) is None,
{
    let r = retained(codes, rule);
    lemma_retained(codes, rule);
    assert forall|k: int| 0 <= k < r.len() implies (#[trigger] r[k]).email != email by {
        assert(r.contains(r[k]));
        assert(codes.contains(r[k]));
        let m = choose|m: int| 0 <= m < codes.len() && codes[m] == r[k];
        assert(codes[m].email != email);
    }
}

/// An address has no record after its records were removed.
pub proof fn lemma_absent_after_removal(codes: Seq<TokenView>, email: Seq<char>)
    ensures
        email_pos(retained(codes, Rule::NotEmail(email)), email) is None,
{
    let r = retained(codes, Rule::NotEmail(email));
    lemma_retained(codes, Rule::NotEmail(email));
    assert forall|k: int| 0 <= k < r.len() implies (#[trigger] r[k]).email != email by {
        assert(r.contains(r[k]));
    }
}

/// An address without a record has none after a record was issued for
/// another address.
pub proof fn lemma_absent_after_issue(codes: Seq<TokenView>, t: TokenView, email: Seq<char>)
    requires
        email_pos(codes, email) is None,
        t.email != email,
    ensures
        email_pos(issued(codes, t), email) is None,
{
    let r0 = retained(codes, Rule::NotEmail(t.email));
    let r = issued(codes, t);
    lemma_absent_after_retained(codes, Rule::NotEmail(t.email), email);
    assert forall|k: int| 0 <= k < r.len() implies (#[trigger] r[k]).email != email by {
        if k < r0.len() {
            assert(r[k] == r0[k]);
        }
    }
}

/// The user that an accepted enrolment makes has a profile as the invariant
/// asks, and its password is trimmed.
pub proof fn lemma_enrolled_user(e: Enrolment, id: u128, role: Role, validated: bool)
    requires
        e.ok(),
    ensures
        profile_ok(e.user(id, role, validated)),
        trimmed(trimmed(e.password)) == trimmed(e.password),
{
    lemma_trimmed_idempotent(e.name);
    lemma_trimmed_idempotent(e.password);
}

/// Registration keeps the invariant.
pub proof fn lemma_register_wf(s: State, e: Enrolment, id: u128, code: Minted, ttl: u32)
    requires
        s.wf(),
    ensures
        register_next(s, e, id, code, ttl).wf(),
{
    let n = register_next(s, e, id, code, ttl);
    if register_error(s, e, id, ttl) is None {
        let u = e.user(id, Role::User, false);
        let rec = record_of(code, u.email, e.now, ttl);
        lemma_push_distinct(s.users, u);
        lemma_issued(s.codes, rec);
        lemma_enrolled_user(e, id, Role::User, false);
        assert forall|i: int| 0 <= i < n.users.len() implies {
            &&& profile_ok(#[trigger] n.users[i])
            &&& password_kept(n.passwords, n.users[i])
            &&& (n.users[i].validated ==> email_pos(n.codes, n.users[i].email) is None)
        } by {
            if i < s.users.len() {
                assert(n.users[i] == s.users[i]);
                assert(s.users[i].id != u.id);
                assert(s.users[i].email != u.email);
                if s.users[i].validated {
                    lemma_absent_after_issue(s.codes, rec, s.users[i].email);
                }
            }
        }
    }
}

/// Verification keeps the invariant.
pub proof fn lemma_verify_wf(s: State, id: u128, code: Seq<char>, now: i64)
    requires
        s.wf(),
    ensures
        verify_next(s, id, code, now).wf(),
{
    let n = verify_next(s, id, code, now);
    if verify_error(s, id, code, now) is None {
        let i = id_index(s.users, id)->Some_0;
        let u = validated_user(s.users[i]);
        lemma_same_keys_no_clash(s.users, i);
        lemma_update_distinct(s.users, i, u);
        lemma_retained(s.codes, Rule::NotEmail(u.email));
        assert forall|j: int| 0 <= j < n.users.len() implies {
            &&& profile_ok(#[trigger] n.users[j])
            &&& password_kept(n.passwords, n.users[j])
            &&& (n.users[j].validated ==> email_pos(n.codes, n.users[j].email) is None)
        } by {
            if j == i {
                lemma_absent_after_removal(s.codes, u.email);
            } else {
                assert(n.users[j] == s.users[j]);
                if s.users[j].validated {
                    lemma_absent_after_retained(
                        s.codes,
                        Rule::NotEmail(u.email),
                        s.users[j].email,
                    );
                }
            }
        }
    }
}

/// A request for a new verification code keeps the invariant.
pub proof fn lemma_resend_wf(s: State, id: u128, code: Minted, now: i64, ttl: u32)
    requires
        s.wf(),
    ensures
        resend_next(s, id, code, now, ttl).wf(),
{
    let n = resend_next(s, id, code, now, ttl);
    if resend_error(s, id, now, ttl) is None {
        let i = id_index(s.users, id)->Some_0;
        let rec = record_of(code, s.users[i].email, now, ttl);
        lemma_issued(s.codes, rec);
        assert forall|j: int| 0 <= j < n.users.len() implies {
            &&& profile_ok(#[trigger] n.users[j])
            &&& password_kept(n.passwords, n.users[j])
            &&& (n.users[j].validated ==> email_pos(n.codes, n.users[j].email) is None)
        } by {
            if s.users[j].validated {
                if j < i {
                    assert(s.users[j].email != s.users[i].email);
                } else if i < j {
                    assert(s.users[i].email != s.users[j].email);
                }
                lemma_absent_after_issue(s.codes, rec, s.users[j].email);
            }
        }
    }
}

/// A request for a password reset keeps the invariant.
pub proof fn lemma_request_reset_wf(s: State, email: Seq<char>, token: Minted, now: i64, ttl: u32)
    requires
        s.wf(),
    ensures
        request_reset_next(s, email, token, now, ttl).wf(),
{
    if reset_is_issued(s, email, now, ttl) {
        let i = email_index(s.users, email_form(email))->Some_0;
        lemma_issued(s.resets, record_of(token, s.users[i].email, now, ttl));
    }
}

/// A password reset keeps the invariant.
pub proof fn lemma_confirm_reset_wf(
    s: State,
    token: Seq<char>,
    password: Seq<char>,
    salt: Seq<char>,
    now: i64,
)
    requires
        s.wf(),
    ensures
        confirm_reset_next(s, token, password, salt, now).wf(),
{
    let n = confirm_reset_next(s, token, password, salt, now);
    if confirm_reset_error(s, token, password, salt, now) is None {
        lemma_trimmed_idempotent(password);
        let k = crate::tokens::secret_pos(s.resets, token)->Some_0;
        let i = email_index(s.users, s.resets[k].email)->Some_0;
        let u = rekeyed(
            s.users[i],
            crate::codec::password_hash(trimmed(password), salt),
            salt,
        );
        lemma_same_keys_no_clash(s.users, i);
        lemma_update_distinct(s.users, i, u);
        lemma_retained(s.resets, Rule::NotEmail(s.resets[k].email));
        assert forall|j: int| 0 <= j < n.users.len() implies {
            &&& profile_ok(#[trigger] n.users[j])
            &&& password_kept(n.passwords, n.users[j])
            &&& (n.users[j].validated ==> email_pos(n.codes, n.users[j].email) is None)
        } by {
            if j != i {
                assert(n.users[j] == s.users[j]);
                if j < i {
                    assert(s.users[j].id != s.users[i].id);
                } else {
                    assert(s.users[i].id != s.users[j].id);
                }
            }
        }
    }
}

/// The profile that present input with a canonical address gives is as
/// the invariant asks.
pub proof fn lemma_profile_input(u: UserView, name: Seq<char>, email: Seq<char>)
    requires
        profile_present(name, email),
        crate::text::is_canonical_email(email_form(email)),
    ensures
        profile_ok(reprofiled(u, name, email)),
{
    lemma_trimmed_idempotent(name);
}

/// A change of profile keeps the invariant.
pub proof fn lemma_update_profile_wf(
    s: State,
    actor_slug: Seq<char>,
    actor_role: Seq<char>,
    target_slug: Seq<char>,
    name: Seq<char>,
    email: Seq<char>,
    code: Minted,
    now: i64,
    ttl: u32,
)
    requires
        s.wf(),
    ensures
        update_profile_next(
            s,
            actor_slug,
            actor_role,
            target_slug,
            name,
            email,
            code,
            now,
            ttl,
        ).wf(),
{
    let n = update_profile_next(
        s,
        actor_slug,
        actor_role,
        target_slug,
        name,
        email,
        code,
        now,
        ttl,
    );
    if update_profile_error(s, actor_slug, actor_role, target_slug, name, email, now, ttl)
        is None {
        let i = slug_index(s.users, target_slug)->Some_0;
        let old_user = s.users[i];
        if !same_profile(old_user, name, email) {
            let u = reprofiled(old_user, name, email);
            let rec = record_of(code, email_form(email), now, ttl);
            lemma_profile_input(old_user, name, email);
            lemma_update_distinct(s.users, i, u);
            if u.email != old_user.email {
                lemma_issued(s.codes, rec);
            }
            assert forall|j: int| 0 <= j < n.users.len() implies {
                &&& profile_ok(#[trigger] n.users[j])
                &&& password_kept(n.passwords, n.users[j])
                &&& (n.users[j].validated ==> email_pos(n.codes, n.users[j].email) is None)
            } by {
                if j != i {
                    assert(n.users[j] == s.users[j]);
                    assert(s.users[j].email != u.email);
                    if u.email != old_user.email && s.users[j].validated {
                        lemma_absent_after_issue(s.codes, rec, s.users[j].email);
                    }
                }
            }
        }
    }
}

/// A change by an administrator keeps the invariant.
pub proof fn lemma_admin_update_wf(
    s: State,
    actor_role: Seq<char>,
    target_slug: Seq<char>,
    name: Seq<char>,
    email: Seq<char>,
    role: Seq<char>,
    validated: Seq<char>,
)
    requires
        s.wf(),
    ensures
        admin_update_next(s, actor_role, target_slug, name, email, role, validated).wf(),
{
    let n = admin_update_next(s, actor_role, target_slug, name, email, role, validated);
    if admin_update_error(s, actor_role, target_slug, name, email, role) is None {
        let i = slug_index(s.users, target_slug)->Some_0;
        let u = administered(
            s.users[i],
            name,
            email,
            crate::role::role_named(role)->Some_0,
            says_true(validated),
        );
        lemma_profile_input(s.users[i], name, email);
        lemma_update_distinct(s.users, i, u);
        lemma_retained(s.codes, Rule::NotEmail(u.email));
        assert forall|j: int| 0 <= j < n.users.len() implies {
            &&& profile_ok(#[trigger] n.users[j])
            &&& password_kept(n.passwords, n.users[j])
            &&& (n.users[j].validated ==> email_pos(n.codes, n.users[j].email) is None)
        } by {
            if j == i {
                if u.validated {
                    lemma_absent_after_removal(s.codes, u.email);
                }
            } else {
                assert(n.users[j] == s.users[j]);
                if u.validated && s.users[j].validated {
                    lemma_absent_after_retained(
                        s.codes,
                        Rule::NotEmail(u.email),
                        s.users[j].email,
                    );
                }
            }
        }
    }
}

/// A deletion keeps the invariant.
pub proof fn lemma_delete_wf(
    s: State,
    actor_slug: Seq<char>,
    actor_role: Seq<char>,
    target_slug: Seq<char>,
    confirmation: Seq<char>,
)
    requires
        s.wf(),
    ensures
        delete_next(s, actor_slug, actor_role, target_slug, confirmation).wf(),
{
    let n = delete_next(s, actor_slug, actor_role, target_slug, confirmation);
    if delete_error(s, actor_slug, actor_role, target_slug, confirmation) is None {
        let i = slug_index(s.users, target_slug)->Some_0;
        lemma_remove_distinct(s.users, i);
        assert forall|j: int| 0 <= j < n.users.len() implies {
            &&& profile_ok(#[trigger] n.users[j])
            &&& password_kept(n.passwords, n.users[j])
            &&& (n.users[j].validated ==> email_pos(n.codes, n.users[j].email) is None)
        } by {
            let j0 = if j < i {
                j
            } else {
                j + 1
            };
            assert(n.users[j] == s.users[j0]);
            if j0 < i {
                assert(s.users[j0].id != s.users[i].id);
            } else {
                assert(s.users[i].id != s.users[j0].id);
            }
        }
    }
}

/// The creation of the first administrator keeps the invariant.
pub proof fn lemma_bootstrap_wf(s: State, e: Enrolment, id: u128)
    requires
        s.wf(),
    ensures
        bootstrap_next(s, e, id).wf(),
{
    let n = bootstrap_next(s, e, id);
    if bootstrap_creates(s, e, id) {
        let u = e.user(id, Role::Admin, true);
        lemma_push_distinct(s.users, u);
        lemma_retained(s.codes, Rule::NotEmail(u.email));
        lemma_enrolled_user(e, id, Role::Admin, true);
        assert forall|i: int| 0 <= i < n.users.len() implies {
            &&& profile_ok(#[trigger] n.users[i])
            &&& password_kept(n.passwords, n.users[i])
            &&& (n.users[i].validated ==> email_pos(n.codes, n.users[i].email) is None)
        } by {
            if i < s.users.len() {
                assert(n.users[i] == s.users[i]);
                assert(s.users[i].id != u.id);
                if s.users[i].validated {
                    lemma_absent_after_retained(
                        s.codes,
                        Rule::NotEmail(u.email),
                        s.users[i].email,
                    );
                }
            } else {
                lemma_absent_after_removal(s.codes, u.email);
            }
        }
    }
}

/// The removal of what is no longer honored keeps the invariant.
pub proof fn lemma_purge_wf(s: State, now: i64)
    requires
        s.wf(),
    ensures
        purge_next(s, now).wf(),
{
    let n = purge_next(s, now);
    lemma_retained(s.codes, Rule::LiveAt(now));
    lemma_retained(s.resets, Rule::LiveAt(now));
    assert forall|i: int| 0 <= i < n.users.len() implies {
        &&& profile_ok(#[trigger] n.users[i])
        &&& password_kept(n.passwords, n.users[i])
        &&& (n.users[i].validated ==> email_pos(n.codes, n.users[i].email) is None)
    } by {
        if s.users[i].validated {
            lemma_absent_after_retained(s.codes, Rule::LiveAt(now), s.users[i].email);
        }
    }
}

} // verus!
