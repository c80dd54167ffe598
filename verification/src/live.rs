//! The service on the wall clock, with material minted at the call: each
//! operation here mints what it needs and hands it to the operation that
//! takes it as an argument.

use vstd::prelude::*;
use crate::clock::{fresh_id, utc_now};
use crate::codec::{generate_unique_code, is_code, is_salt, make_salt};
use crate::contract::{
    bootstrap_result,
    confirm_reset_result,
    register_result,
    request_reset_result,
    resend_result,
    update_profile_result,
    verify_result,
};
use crate::error::AuthError;
use crate::forms::{EmailForm, PasswordForm, RegisterForm, UserForm, VerifyForm};
use crate::machine::{
    bootstrap_next,
    confirm_reset_next,
    purge_next,
    register_next,
    request_reset_next,
    resend_next,
    update_profile_next,
    verify_next,
    Enrolment,
    Minted,
};
use crate::outcome::{MailRequest, ProfileChange, Registration, SessionAssertion};
use crate::service::AuthService;
use crate::tokens::{RESET_TOKEN_LEN, VERIFICATION_CODE_LEN};
use crate::user::User;

verus! {

/// A verification code as it is minted: short, with dashes.
pub open spec fn is_verification_code(code: Seq<char>) -> bool {
    is_code(code, VERIFICATION_CODE_LEN as int, true)
}

/// A reset token as it is minted: long, without dashes.
pub open spec fn is_reset_token(token: Seq<char>) -> bool {
    is_code(token, RESET_TOKEN_LEN as int, false)
}

impl AuthService {
    /// Registers a user: mints its identifier, its salt and its
    /// verification code, reads the clock, and registers with them.
    pub fn register(&mut self, form: &RegisterForm) -> (r: Result<Registration, AuthError>)
        requires
            old(self).wf(),
        ensures
            final(self).wf(),
            final(self).same_settings(old(self)),
            exists|e: Enrolment, id: u128, code: Minted|
                {
                    &&& e.name == form.user_name@
                    &&& e.email == form.email@
                    &&& e.password == form.password@
                    &&& is_salt(e.salt)
                    &&& is_verification_code(code.secret)
                    &&& final(self)@ == #[trigger] register_next(
                        old(self)@,
                        e,
                        id,
                        code,
                        old(self).code_ttl(),
                    )
                    &&& register_result(
                        old(self)@,
                        old(self).base_url(),
                        e,
                        id,
                        old(self).code_ttl(),
                        code.secret,
                        r,
                    )
                },
    {
        let id = fresh_id();
        let salt = make_salt();
        let code_id = fresh_id();
        let code = generate_unique_code(VERIFICATION_CODE_LEN, true);
        let now = utc_now();
        let ghost e = Enrolment {
            name: form.user_name@,
            email: form.email@,
            password: form.password@,
            salt: salt@,
            now,
        };
        let ghost m = Minted { id: code_id, secret: code@ };
        let r = self.register_with(form, id, salt, code_id, code, now);
        assert(e.salt == salt@ && m.secret == code@);
        r
    }

    /// Validates the address of a user by the code that was mailed to it,
    /// at the present second.
    pub fn verify_email(&mut self, id: u128, form: &VerifyForm) -> (r: Result<User, AuthError>)
        requires
            old(self).wf(),
        ensures
            final(self).wf(),
            final(self).same_settings(old(self)),
            exists|now: i64|
                {
                    &&& final(self)@ == #[trigger] verify_next(old(self)@, id, form.code@, now)
                    &&& verify_result(old(self)@, id, form.code@, now, r)
                },
    {
        let now = utc_now();
        self.verify_email_at(id, form, now)
    }

    /// Mints a verification code for the address of a user and issues it at
    /// the present second.
    pub fn resend_verification(&mut self, id: u128) -> (r: Result<MailRequest, AuthError>)
        requires
            old(self).wf(),
        ensures
            final(self).wf(),
            final(self).same_settings(old(self)),
            exists|code: Minted, now: i64|
                {
                    &&& is_verification_code(code.secret)
                    &&& final(self)@ == #[trigger] resend_next(
                        old(self)@,
                        id,
                        code,
                        now,
                        old(self).code_ttl(),
                    )
                    &&& resend_result(
                        old(self)@,
                        old(self).base_url(),
                        id,
                        now,
                        old(self).code_ttl(),
                        code.secret,
                        r,
                    )
                },
    {
        let code_id = fresh_id();
        let code = generate_unique_code(VERIFICATION_CODE_LEN, true);
        let now = utc_now();
        let ghost m = Minted { id: code_id, secret: code@ };
        let r = self.resend_verification_with(id, code_id, code, now);
        assert(m.secret == code@);
        r
    }

    /// Mints a reset token and issues it at the present second, if the
    /// address belongs to a user.
    pub fn request_password_reset(&mut self, form: &EmailForm) -> (r: Option<MailRequest>)
        requires
            old(self).wf(),
        ensures
            final(self).wf(),
            final(self).same_settings(old(self)),
            exists|token: Minted, now: i64|
                {
                    &&& is_reset_token(token.secret)
                    &&& final(self)@ == #[trigger] request_reset_next(
                        old(self)@,
                        form.email@,
                        token,
                        now,
                        old(self).token_ttl(),
                    )
                    &&& request_reset_result(
                        old(self)@,
                        old(self).base_url(),
                        form.email@,
                        now,
                        old(self).token_ttl(),
                        token.secret,
                        r,
                    )
                },
    {
        let token_id = fresh_id();
        let token = generate_unique_code(RESET_TOKEN_LEN, false);
        let now = utc_now();
        let ghost m = Minted { id: token_id, secret: token@ };
        let r = self.request_password_reset_with(form, token_id, token, now);
        assert(m.secret == token@);
        r
    }

    /// Sets a new password by a reset token, under a fresh salt, at the
    /// present second.
    pub fn confirm_password_reset(&mut self, token: &String, form: &PasswordForm) -> (r: Result<
        SessionAssertion,
        AuthError,
    >)
        requires
            old(self).wf(),
        ensures
            final(self).wf(),
            final(self).same_settings(old(self)),
            exists|salt: Seq<char>, now: i64|
                {
                    &&& is_salt(salt)
                    &&& final(self)@ == #[trigger] confirm_reset_next(
                        old(self)@,
                        token@,
                        form.password@,
                        salt,
                        now,
                    )
                    &&& confirm_reset_result(old(self)@, token@, form.password@, salt, now, r)
                },
    {
        let salt = make_salt();
        let now = utc_now();
        self.confirm_password_reset_with(token, form, salt, now)
    }

    /// Changes the name and the address of a user; mints the verification
    /// code for a new address and reads the clock.
    pub fn update_profile(
        &mut self,
        actor_slug: &str,
        actor_role: &str,
        target_slug: &String,
        form: &UserForm,
    ) -> (r: Result<ProfileChange, AuthError>)
        requires
            old(self).wf(),
        ensures
            final(self).wf(),
            final(self).same_settings(old(self)),
            exists|code: Minted, now: i64|
                {
                    &&& is_verification_code(code.secret)
                    &&& final(self)@ == #[trigger] update_profile_next(
                        old(self)@,
                        actor_slug@,
                        actor_role@,
                        target_slug@,
                        form.user_name@,
                        form.email@,
                        code,
                        now,
                        old(self).code_ttl(),
                    )
                    &&& update_profile_result(
                        old(self)@,
                        old(self).base_url(),
                        actor_slug@,
                        actor_role@,
                        target_slug@,
                        form.user_name@,
                        form.email@,
                        now,
                        old(self).code_ttl(),
                        code.secret,
                        r,
                    )
                },
    {
        let code_id = fresh_id();
        let code = generate_unique_code(VERIFICATION_CODE_LEN, true);
        let now = utc_now();
        let ghost m = Minted { id: code_id, secret: code@ };
        let r = self.update_profile_with(actor_slug, actor_role, target_slug, form, code_id, code, now);
        assert(m.secret == code@);
        r
    }

    /// Creates the first administrator, unless the address belongs to a
    /// user already: mints its identifier and its salt and reads the clock.
    pub fn bootstrap_admin(&mut self, name: &str, email: &str, password: &str) -> (r: Result<
        bool,
        AuthError,
    >)
        requires
            old(self).wf(),
        ensures
            final(self).wf(),
            final(self).same_settings(old(self)),
            exists|e: Enrolment, id: u128|
                {
                    &&& e.name == name@
                    &&& e.email == email@
                    &&& e.password == password@
                    &&& is_salt(e.salt)
                    &&& final(self)@ == #[trigger] bootstrap_next(old(self)@, e, id)
                    &&& bootstrap_result(old(self)@, e, id, r)
                },
    {
        let id = fresh_id();
        let salt = make_salt();
        let now = utc_now();
        let ghost e = Enrolment { name: name@, email: email@, password: password@, salt: salt@, now };
        let r = self.bootstrap_admin_with(name, email, password, id, salt, now);
        assert(e.salt == salt@);
        r
    }

    /// Removes the codes and the tokens that are no longer honored at the
    /// present second.
    pub fn purge_expired(&mut self) -> (n: (usize, usize))
        requires
            old(self).wf(),
        ensures
            final(self).wf(),
            final(self).same_settings(old(self)),
            exists|now: i64| final(self)@ == #[trigger] purge_next(old(self)@, now),
            n.0 == old(self)@.codes.len() - final(self)@.codes.len(),
            n.1 == old(self)@.resets.len() - final(self)@.resets.len(),
    {
        let now = utc_now();
        self.purge_expired_at(now)
    }
}

} // verus!
