//! The authentication service: the state machine over the credential store
//! and the two token stores.

use vstd::prelude::*;
use crate::authz::{is_admin, is_self_or_admin, Access};
use crate::clock::check_can_expire;
use crate::contract::{
    bootstrap_result,
    confirm_reset_result,
    register_result,
    request_reset_result,
    resend_result,
    update_profile_result,
    verify_result,
};
use crate::codec::{check_password, hash_password};
use crate::error::AuthError;
use crate::forms::{
    AdminUserForm,
    DeleteForm,
    EmailForm,
    LoginForm,
    PasswordForm,
    RegisterForm,
    UserForm,
    VerifyForm,
};
use crate::invariants::{
    lemma_admin_update_wf,
    lemma_bootstrap_wf,
    lemma_confirm_reset_wf,
    lemma_delete_wf,
    lemma_purge_wf,
    lemma_register_wf,
    lemma_request_reset_wf,
    lemma_resend_wf,
    lemma_update_profile_wf,
    lemma_verify_wf,
};
use crate::machine::{
    admin_update_error,
    admin_update_next,
    administered,
    bootstrap_next,
    confirm_reset_next,
    delete_error,
    delete_next,
    initial,
    login_user,
    purge_next,
    register_next,
    request_reset_next,
    resend_next,
    says_true,
    update_profile_next,
    verify_next,
    Enrolment,
    Minted,
    State,
};
use crate::outcome::{
    MailKind,
    MailRequest,
    ProfileChange,
    Registration,
    SessionAssertion,
    SessionChange,
};
use crate::role::Role;
use crate::slug::derive_slug;
use crate::store::{
    email_index,
    id_index,
    lemma_found_at,
    lemma_same_keys_no_clash,
    slug_index,
    CredentialStore,
};
use crate::text::{check_canonical_email, text_eq, trim, trimmed};
use crate::tokens::{TokenStore, RESET_TTL, VERIFICATION_TTL};
use crate::user::{User, UserData};

verus! {

/// The authentication service.
pub struct AuthService {
    users: CredentialStore,
    codes: TokenStore,
    resets: TokenStore,
    passwords: Ghost<Map<u128, Seq<char>>>,
    application_base_url: String,
    verification_ttl: u32,
    reset_ttl: u32,
}

impl View for AuthService {
    type V = State;

    closed spec fn view(&self) -> State {
        State {
            users: self.users@,
            codes: self.codes@,
            resets: self.resets@,
            passwords: self.passwords@,
        }
    }
}

impl AuthService {
    /// The invariant of the service.
    pub open spec fn wf(&self) -> bool {
        self@.wf()
    }

    /// The address of the application, for the links in a mail.
    pub closed spec fn base_url(&self) -> Seq<char> {
        self.application_base_url@
    }

    /// The seconds for which a verification code is honored.
    pub closed spec fn code_ttl(&self) -> u32 {
        self.verification_ttl
    }

    /// The seconds for which a reset token is honored.
    pub closed spec fn token_ttl(&self) -> u32 {
        self.reset_ttl
    }

    /// Whether `other` has the settings of this service.
    pub open spec fn same_settings(&self, other: &AuthService) -> bool {
        &&& self.base_url() == other.base_url()
        &&& self.code_ttl() == other.code_ttl()
        &&& self.token_ttl() == other.token_ttl()
    }

    /// A service without users, with the usual lifetimes: 24 hours for a
    /// verification code, 2 hours for a reset token.
    pub fn new(application_base_url: String) -> (s: AuthService)
        ensures
            s@ == initial(),
            s.wf(),
            s.base_url() == application_base_url@,
            s.code_ttl() == VERIFICATION_TTL,
            s.token_ttl() == RESET_TTL,
    {
        AuthService::with_lifetimes(application_base_url, VERIFICATION_TTL, RESET_TTL)
    }

    /// A service without users, with the lifetimes given, in seconds.
    pub fn with_lifetimes(application_base_url: String, verification_ttl: u32, reset_ttl: u32) -> (s:
        AuthService)
        ensures
            s@ == initial(),
            s.wf(),
            s.base_url() == application_base_url@,
            s.code_ttl() == verification_ttl,
            s.token_ttl() == reset_ttl,
    {
        AuthService {
            users: CredentialStore::new(),
            codes: TokenStore::new(),
            resets: TokenStore::new(),
            passwords: Ghost(Map::empty()),
            application_base_url,
            verification_ttl,
            reset_ttl,
        }
    }

    /// The users.
    pub fn users(&self) -> (u: &CredentialStore)
        ensures
            u@ == self@.users,
            self.wf() ==> u.wf(),
    {
        &self.users
    }

    /// The verification codes.
    pub fn codes(&self) -> (c: &TokenStore)
        ensures
            c@ == self@.codes,
            self.wf() ==> c.wf(),
    {
        &self.codes
    }

    /// The reset tokens.
    pub fn resets(&self) -> (t: &TokenStore)
        ensures
            t@ == self@.resets,
            self.wf() ==> t.wf(),
    {
        &self.resets
    }

    /// The address of the application.
    pub fn application_base_url(&self) -> (url: &String)
        ensures
            url@ == self.base_url(),
    {
        &self.application_base_url
    }

    /// The seconds for which a verification code is honored.
    pub fn verification_ttl(&self) -> (ttl: u32)
        ensures
            ttl == self.code_ttl(),
    {
        self.verification_ttl
    }

    /// The seconds for which a reset token is honored.
    pub fn reset_ttl(&self) -> (ttl: u32)
        ensures
            ttl == self.token_ttl(),
    {
        self.reset_ttl
    }

    /// Registers a user under the identifier and salt given, at the second
    /// `now`, and issues the verification code given for its address.
    ///
    /// The name, the address and the password are trimmed, the address is
    /// lowercased. The registration fails with `InvalidInput` where a field
    /// is empty, then with `Conflict` where the identifier, the address or
    /// the slug is in use, then with `InvalidInput` where the address is not
    /// canonical or the hasher does not accept password and salt, then with
    /// `Internal` where the clock cannot show the expiry of the code; a
    /// failure changes nothing. On success the user is stored with the
    /// ordinary role, not validated.
    pub fn register_with(
        &mut self,
        form: &RegisterForm,
        id: u128,
        salt: String,
        code_id: u128,
        code: String,
        now: i64,
    ) -> (r: Result<Registration, AuthError>)
        requires
            old(self).wf(),
        ensures
            final(self).wf(),
            final(self).same_settings(old(self)),
            ({
                let e = Enrolment {
                    name: form.user_name@,
                    email: form.email@,
                    password: form.password@,
                    salt: salt@,
                    now,
                };
                let m = Minted { id: code_id, secret: code@ };
                &&& final(self)@ == register_next(old(self)@, e, id, m, old(self).code_ttl())
                &&& register_result(
                    old(self)@,
                    old(self).base_url(),
                    e,
                    id,
                    old(self).code_ttl(),
                    code@,
                    r,
                )
            }),
    {
        let ghost e = Enrolment {
            name: form.user_name@,
            email: form.email@,
            password: form.password@,
            salt: salt@,
            now,
        };
        let ghost m = Minted { id: code_id, secret: code@ };
        let ghost before = self@;
        let data = UserData {
            user_name: form.user_name.clone(),
            email: form.email.clone(),
            password: form.password.clone(),
            role: Role::User,
            validated: false,
        };
        let user = match self.users.check_enrolment(&data, id, salt, now) {
            Ok(u) => u,
            Err(err) => {
                return Err(err);
            },
        };
        if !check_can_expire(now, self.verification_ttl) {
            return Err(AuthError::Internal);
        }
        let stored = user.clone();
        match self.users.insert(user) {
            Ok(_) => {},
            Err(err) => {
                // Not reached: the keys of the user were found free.
                return Err(err);
            },
        }
        let issued = self.codes.issue_with(
            stored.email.as_str(),
            code_id,
            code,
            now,
            self.verification_ttl,
        );
        self.passwords = Ghost(self.passwords@.insert(id, trimmed(form.password@)));
        proof {
            lemma_register_wf(before, e, id, m, self.verification_ttl);
            assert(self@ == register_next(before, e, id, m, self.verification_ttl));
        }
        let mail = MailRequest::new(
            MailKind::Verification,
            stored.email.as_str(),
            issued.secret.as_str(),
            self.application_base_url.as_str(),
        );
        let session = SessionAssertion { slug: stored.slug.clone() };
        Ok(Registration { user: stored, session, mail })
    }

    /// Signs a user in by address and password. The address is trimmed and
    /// lowercased, the password is trimmed. An unknown address and a wrong
    /// password give the same error, `InvalidCredentials`.
    pub fn login(&self, form: &LoginForm) -> (r: Result<SessionAssertion, AuthError>)
        requires
            self.wf(),
        ensures
            match login_user(self@, form.email@, form.password@) {
                Some(i) => r is Ok && r->Ok_0.slug@ == self@.users[i].slug,
                None => r is Err && r->Err_0 == AuthError::InvalidCredentials,
            },
    {
        let t = trim(form.email.as_str());
        let email = t.as_str().to_lowercase();
        let password = trim(form.password.as_str());
        match self.users.find_from_email(&email) {
            Ok(u) => {
                if check_password(password.as_str(), u.salt.as_str(), &u.hash) {
                    Ok(SessionAssertion { slug: u.slug })
                } else {
                    Err(AuthError::InvalidCredentials)
                }
            },
            Err(_) => Err(AuthError::InvalidCredentials),
        }
    }

    /// Validates the address of the user with identifier `id` by the code
    /// that was mailed to it, at the second `now`.
    ///
    /// Fails with `NotFound` where there is no such user, with
    /// `AlreadyValidated` where its address is validated, and with
    /// `InvalidCode` where no code is held for its address, the trimmed code
    /// differs from the one held, or that one is no longer honored; a
    /// failure changes nothing. On success the user is validated and the
    /// code is removed. Returns the user as it is stored afterwards.
    pub fn verify_email_at(&mut self, id: u128, form: &VerifyForm, now: i64) -> (r: Result<
        User,
        AuthError,
    >)
        requires
            old(self).wf(),
        ensures
            final(self).wf(),
            final(self).same_settings(old(self)),
            final(self)@ == verify_next(old(self)@, id, form.code@, now),
            verify_result(old(self)@, id, form.code@, now, r),
    {
        let ghost before = self@;
        let mut user = match self.users.find(id) {
            Ok(u) => u,
            Err(err) => {
                return Err(err);
            },
        };
        if user.validated {
            return Err(AuthError::AlreadyValidated);
        }
        let held = match self.codes.find_by_email(&user.email) {
            Ok(t) => t,
            Err(_) => {
                return Err(AuthError::InvalidCode);
            },
        };
        let typed = trim(form.code.as_str());
        if typed != held.secret || now > held.expires_at {
            return Err(AuthError::InvalidCode);
        }
        let email = user.email.clone();
        user.validated = true;
        proof {
            lemma_same_keys_no_clash(before.users, id_index(before.users, id)->Some_0);
        }
        let stored = match self.users.update(user) {
            Ok(u) => u,
            Err(err) => {
                // Not reached: the user was found and keeps its address and slug.
                return Err(err);
            },
        };
        self.codes.remove_email(&email);
        proof {
            lemma_verify_wf(before, id, form.code@, now);
            assert(self@.users =~= verify_next(before, id, form.code@, now).users);
            assert(self@ == verify_next(before, id, form.code@, now));
        }
        Ok(stored)
    }

    /// Issues the verification code given for the address of the user with
    /// identifier `id`, at the second `now`; it supersedes the code held.
    ///
    /// Fails with `NotFound` where there is no such user, with
    /// `AlreadyValidated` where its address is validated, and with
    /// `Internal` where the clock cannot show the expiry of the code; a
    /// failure changes nothing. Returns the mail that carries the code.
    pub fn resend_verification_with(
        &mut self,
        id: u128,
        code_id: u128,
        code: String,
        now: i64,
    ) -> (r: Result<MailRequest, AuthError>)
        requires
            old(self).wf(),
        ensures
            final(self).wf(),
            final(self).same_settings(old(self)),
            final(self)@ == resend_next(
                old(self)@,
                id,
                Minted { id: code_id, secret: code@ },
                now,
                old(self).code_ttl(),
            ),
            resend_result(
                old(self)@,
                old(self).base_url(),
                id,
                now,
                old(self).code_ttl(),
                code@,
                r,
            ),
    {
        let ghost before = self@;
        let ghost m = Minted { id: code_id, secret: code@ };
        let user = match self.users.find(id) {
            Ok(u) => u,
            Err(err) => {
                return Err(err);
            },
        };
        if user.validated {
            return Err(AuthError::AlreadyValidated);
        }
        if !check_can_expire(now, self.verification_ttl) {
            return Err(AuthError::Internal);
        }
        let issued = self.codes.issue_with(
            user.email.as_str(),
            code_id,
            code,
            now,
            self.verification_ttl,
        );
        proof {
            lemma_resend_wf(before, id, m, now, self.verification_ttl);
            assert(self@ == resend_next(before, id, m, now, self.verification_ttl));
        }
        Ok(
            MailRequest::new(
                MailKind::Verification,
                user.email.as_str(),
                issued.secret.as_str(),
                self.application_base_url.as_str(),
            ),
        )
    }

    /// Drops the session of the caller. The stores are not touched.
    pub fn logout(&self, session: SessionAssertion) -> (r: SessionChange)
        ensures
            r is Forget,
    {
        SessionChange::Forget
    }

    /// Issues the reset token given for the trimmed and lowercased address,
    /// at the second `now`, if the address belongs to a user; it supersedes
    /// the token held. Returns the mail that carries the token.
    ///
    /// An address that belongs to nobody changes nothing and is no error:
    /// there is only no mail. The same holds where the clock cannot show the
    /// expiry of the token.
    pub fn request_password_reset_with(
        &mut self,
        form: &EmailForm,
        token_id: u128,
        token: String,
        now: i64,
    ) -> (r: Option<MailRequest>)
        requires
            old(self).wf(),
        ensures
            final(self).wf(),
            final(self).same_settings(old(self)),
            final(self)@ == request_reset_next(
                old(self)@,
                form.email@,
                Minted { id: token_id, secret: token@ },
                now,
                old(self).token_ttl(),
            ),
            request_reset_result(
                old(self)@,
                old(self).base_url(),
                form.email@,
                now,
                old(self).token_ttl(),
                token@,
                r,
            ),
    {
        let ghost before = self@;
        let ghost m = Minted { id: token_id, secret: token@ };
        let t = trim(form.email.as_str());
        let email = t.as_str().to_lowercase();
        let user = match self.users.find_from_email(&email) {
            Ok(u) => u,
            Err(_) => {
                return None;
            },
        };
        if !check_can_expire(now, self.reset_ttl) {
            return None;
        }
        let issued = self.resets.issue_with(
            user.email.as_str(),
            token_id,
            token,
            now,
            self.reset_ttl,
        );
        proof {
            lemma_request_reset_wf(before, form.email@, m, now, self.reset_ttl);
            assert(self@ == request_reset_next(before, form.email@, m, now, self.reset_ttl));
        }
        Some(
            MailRequest::new(
                MailKind::PasswordReset,
                user.email.as_str(),
                issued.secret.as_str(),
                self.application_base_url.as_str(),
            ),
        )
    }

    /// Sets the trimmed password of the form, under the salt given, for the
    /// user whose address the reset token was issued for, at the second
    /// `now`.
    ///
    /// Fails with `InvalidInput` where the password is empty or the hasher
    /// does not accept password and salt, with `InvalidToken` where no such
    /// token is held or it is no longer honored, and with `NotFound` where
    /// its address belongs to nobody; a failure changes nothing. On success
    /// hash and salt are replaced together and the token is removed.
    /// Returns the binding of a session to the user.
    pub fn confirm_password_reset_with(
        &mut self,
        token: &String,
        form: &PasswordForm,
        salt: String,
        now: i64,
    ) -> (r: Result<SessionAssertion, AuthError>)
        requires
            old(self).wf(),
        ensures
            final(self).wf(),
            final(self).same_settings(old(self)),
            final(self)@ == confirm_reset_next(old(self)@, token@, form.password@, salt@, now),
            confirm_reset_result(old(self)@, token@, form.password@, salt@, now, r),
    {
        let ghost before = self@;
        let password = trim(form.password.as_str());
        if password.as_str().is_empty() {
            return Err(AuthError::InvalidInput);
        }
        let hash = match hash_password(password.as_str(), salt.as_str()) {
            Some(h) => h,
            None => {
                return Err(AuthError::InvalidInput);
            },
        };
        let held = match self.resets.find_by_token(token) {
            Ok(t) => t,
            Err(_) => {
                return Err(AuthError::InvalidToken);
            },
        };
        if now > held.expires_at {
            return Err(AuthError::InvalidToken);
        }
        let user = match self.users.find_from_email(&held.email) {
            Ok(u) => u,
            Err(err) => {
                return Err(err);
            },
        };
        proof {
            let i = email_index(before.users, held@.email)->Some_0;
            lemma_found_at(before.users, i);
        }
        let stored = match self.users.set_password(user.id, hash, salt) {
            Ok(u) => u,
            Err(err) => {
                // Not reached: the user was found.
                return Err(err);
            },
        };
        self.resets.remove_email(&held.email);
        self.passwords = Ghost(self.passwords@.insert(user.id, trimmed(form.password@)));
        proof {
            lemma_confirm_reset_wf(before, token@, form.password@, salt@, now);
            assert(self@ == confirm_reset_next(before, token@, form.password@, salt@, now));
        }
        Ok(SessionAssertion { slug: stored.slug })
    }
}

impl AuthService {
    /// Changes the name and the address of the user with slug
    /// `target_slug`, on behalf of the actor given by slug and role, at the
    /// second `now`; the verification code given is issued where the address
    /// changes.
    ///
    /// The name is trimmed, the address is trimmed and lowercased. Fails
    /// with `Forbidden` unless the actor is the target or an administrator,
    /// then with `NotFound` where there is no such user, then with
    /// `InvalidInput` where a field is empty, then with `Conflict` where
    /// another user has the new address or the new slug, then with
    /// `InvalidInput` where the address is not canonical, then with
    /// `Internal` where the address changes and the clock cannot show the
    /// expiry of the code; a failure changes nothing. Where name and address
    /// are those stored, nothing changes and the call succeeds. A new name
    /// gives a new slug; a new address is not validated.
    pub fn update_profile_with(
        &mut self,
        actor_slug: &str,
        actor_role: &str,
        target_slug: &String,
        form: &UserForm,
        code_id: u128,
        code: String,
        now: i64,
    ) -> (r: Result<ProfileChange, AuthError>)
        requires
            old(self).wf(),
        ensures
            final(self).wf(),
            final(self).same_settings(old(self)),
            final(self)@ == update_profile_next(
                old(self)@,
                actor_slug@,
                actor_role@,
                target_slug@,
                form.user_name@,
                form.email@,
                Minted { id: code_id, secret: code@ },
                now,
                old(self).code_ttl(),
            ),
            update_profile_result(
                old(self)@,
                old(self).base_url(),
                actor_slug@,
                actor_role@,
                target_slug@,
                form.user_name@,
                form.email@,
                now,
                old(self).code_ttl(),
                code@,
                r,
            ),
    {
        let ghost before = self@;
        let ghost m = Minted { id: code_id, secret: code@ };
        match is_self_or_admin(actor_slug, actor_role, target_slug.as_str()) {
            Access::Allowed => {},
            Access::Forbidden(_) => {
                return Err(AuthError::Forbidden);
            },
        }
        let user = match self.users.find_from_slug(target_slug) {
            Ok(u) => u,
            Err(err) => {
                return Err(err);
            },
        };
        let name = trim(form.user_name.as_str());
        let address = trim(form.email.as_str());
        if name.as_str().is_empty() || address.as_str().is_empty() {
            return Err(AuthError::InvalidInput);
        }
        let email = address.as_str().to_lowercase();
        let slug = derive_slug(name.as_str());
        let name_changed = name != user.user_name;
        let email_changed = email != user.email;
        if !name_changed && !email_changed {
            return Ok(
                ProfileChange { user, changed: false, session: SessionChange::Keep, mail: None },
            );
        }
        proof {
            lemma_found_at(before.users, slug_index(before.users, target_slug@)->Some_0);
        }
        if self.users.clashes_with_others(user.id, &email, &slug) {
            return Err(AuthError::Conflict);
        }
        if !check_canonical_email(email.as_str()) {
            return Err(AuthError::InvalidInput);
        }
        if email_changed && !check_can_expire(now, self.verification_ttl) {
            return Err(AuthError::Internal);
        }
        let next = User {
            id: user.id,
            hash: user.hash,
            salt: user.salt,
            email,
            user_name: name,
            slug,
            created_at: user.created_at,
            role: user.role,
            validated: user.validated && !email_changed,
        };
        let stored = match self.users.update(next) {
            Ok(u) => u,
            Err(err) => {
                // Not reached: the user was found and clashes with nobody.
                return Err(err);
            },
        };
        let mail = if email_changed {
            let issued = self.codes.issue_with(
                stored.email.as_str(),
                code_id,
                code,
                now,
                self.verification_ttl,
            );
            Some(
                MailRequest::new(
                    MailKind::Verification,
                    stored.email.as_str(),
                    issued.secret.as_str(),
                    self.application_base_url.as_str(),
                ),
            )
        } else {
            None
        };
        let session = if name_changed && text_eq(actor_slug, target_slug.as_str()) {
            SessionChange::Rebind(SessionAssertion { slug: stored.slug.clone() })
        } else {
            SessionChange::Keep
        };
        proof {
            lemma_update_profile_wf(
                before,
                actor_slug@,
                actor_role@,
                target_slug@,
                form.user_name@,
                form.email@,
                m,
                now,
                self.verification_ttl,
            );
            assert(self@ == update_profile_next(
                before,
                actor_slug@,
                actor_role@,
                target_slug@,
                form.user_name@,
                form.email@,
                m,
                now,
                self.verification_ttl,
            ));
        }
        Ok(ProfileChange { user: stored, changed: true, session, mail })
    }

    /// Changes the name, the address, the role and the validation of the
    /// user with slug `target_slug`, on behalf of an actor with the role
    /// given.
    ///
    /// The name is trimmed, the address and the role are trimmed and
    /// lowercased; the address is validated exactly where the form says
    /// `true`. Fails with `Forbidden` unless the actor is an administrator,
    /// then with `NotFound` where there is no such user, then with
    /// `InvalidInput` where a field is empty or the role is none, then with
    /// `LastAdmin` where the only administrator would become an ordinary
    /// user, then with `Conflict` where another user has the new address or
    /// the new slug, then with `InvalidInput` where the address is not
    /// canonical; a failure changes nothing. The code held for a validated
    /// address is removed. Returns the user as it is stored afterwards.
    pub fn admin_update(&mut self, actor_role: &str, target_slug: &String, form: &AdminUserForm) -> (r:
        Result<User, AuthError>)
        requires
            old(self).wf(),
        ensures
            final(self).wf(),
            final(self).same_settings(old(self)),
            final(self)@ == admin_update_next(
                old(self)@,
                actor_role@,
                target_slug@,
                form.user_name@,
                form.email@,
                form.role@,
                form.validated@,
            ),
            match r {
                Ok(u) => {
                    &&& admin_update_error(
                        old(self)@,
                        actor_role@,
                        target_slug@,
                        form.user_name@,
                        form.email@,
                        form.role@,
                    ) is None
                    &&& u@ == administered(
                        old(self)@.users[slug_index(old(self)@.users, target_slug@)->Some_0],
                        form.user_name@,
                        form.email@,
                        crate::role::role_named(form.role@)->Some_0,
                        says_true(form.validated@),
                    )
                },
                Err(err) => admin_update_error(
                    old(self)@,
                    actor_role@,
                    target_slug@,
                    form.user_name@,
                    form.email@,
                    form.role@,
                ) == Some(err),
            },
    {
        let ghost before = self@;
        match is_admin(actor_role) {
            Access::Allowed => {},
            Access::Forbidden(_) => {
                return Err(AuthError::Forbidden);
            },
        }
        let user = match self.users.find_from_slug(target_slug) {
            Ok(u) => u,
            Err(err) => {
                return Err(err);
            },
        };
        let name = trim(form.user_name.as_str());
        let address = trim(form.email.as_str());
        if name.as_str().is_empty() || address.as_str().is_empty() {
            return Err(AuthError::InvalidInput);
        }
        let email = address.as_str().to_lowercase();
        let slug = derive_slug(name.as_str());
        let role = match Role::parse(form.role.as_str()) {
            Some(r) => r,
            None => {
                return Err(AuthError::InvalidInput);
            },
        };
        proof {
            lemma_found_at(
                before.users,
                slug_index(before.users, target_slug@)->Some_0,
            );
        }
        if !role.is_admin() && self.users.is_sole_admin(user.id) {
            return Err(AuthError::LastAdmin);
        }
        if self.users.clashes_with_others(user.id, &email, &slug) {
            return Err(AuthError::Conflict);
        }
        if !check_canonical_email(email.as_str()) {
            return Err(AuthError::InvalidInput);
        }
        let validated = text_eq(form.validated.as_str(), "true");
        let next = User {
            id: user.id,
            hash: user.hash,
            salt: user.salt,
            email,
            user_name: name,
            slug,
            created_at: user.created_at,
            role,
            validated,
        };
        let stored = match self.users.update(next) {
            Ok(u) => u,
            Err(err) => {
                // Not reached: the user was found and clashes with nobody.
                return Err(err);
            },
        };
        if validated {
            self.codes.remove_email(&stored.email);
        }
        proof {
            lemma_admin_update_wf(
                before,
                actor_role@,
                target_slug@,
                form.user_name@,
                form.email@,
                form.role@,
                form.validated@,
            );
            assert(self@ == admin_update_next(
                before,
                actor_role@,
                target_slug@,
                form.user_name@,
                form.email@,
                form.role@,
                form.validated@,
            ));
        }
        Ok(stored)
    }

    /// Deletes the user with slug `target_slug`, on behalf of the actor
    /// given by slug and role.
    ///
    /// Fails with `Forbidden` unless the actor is the target or an
    /// administrator, with `NotFound` where there is no such user, and with
    /// `ConfirmationMismatch` unless the trimmed confirmation is the name of
    /// the user; a failure changes nothing. On success the session is to be
    /// dropped exactly where the actor deleted itself.
    pub fn delete(
        &mut self,
        actor_slug: &str,
        actor_role: &str,
        target_slug: &String,
        form: &DeleteForm,
    ) -> (r: Result<SessionChange, AuthError>)
        requires
            old(self).wf(),
        ensures
            final(self).wf(),
            final(self).same_settings(old(self)),
            final(self)@ == delete_next(
                old(self)@,
                actor_slug@,
                actor_role@,
                target_slug@,
                form.verify@,
            ),
            match r {
                Ok(change) => {
                    &&& delete_error(
                        old(self)@,
                        actor_slug@,
                        actor_role@,
                        target_slug@,
                        form.verify@,
                    ) is None
                    &&& match change {
                        SessionChange::Forget => actor_slug@ == target_slug@,
                        SessionChange::Keep => actor_slug@ != target_slug@,
                        SessionChange::Rebind(_) => false,
                    }
                },
                Err(err) => delete_error(
                    old(self)@,
                    actor_slug@,
                    actor_role@,
                    target_slug@,
                    form.verify@,
                ) == Some(err),
            },
    {
        let ghost before = self@;
        match is_self_or_admin(actor_slug, actor_role, target_slug.as_str()) {
            Access::Allowed => {},
            Access::Forbidden(_) => {
                return Err(AuthError::Forbidden);
            },
        }
        let user = match self.users.find_from_slug(target_slug) {
            Ok(u) => u,
            Err(err) => {
                return Err(err);
            },
        };
        let typed = trim(form.verify.as_str());
        if typed != user.user_name {
            return Err(AuthError::ConfirmationMismatch);
        }
        proof {
            lemma_found_at(
                before.users,
                slug_index(before.users, target_slug@)->Some_0,
            );
        }
        self.users.delete(user.id);
        self.passwords = Ghost(self.passwords@.remove(user.id));
        proof {
            lemma_delete_wf(before, actor_slug@, actor_role@, target_slug@, form.verify@);
            assert(self@ == delete_next(
                before,
                actor_slug@,
                actor_role@,
                target_slug@,
                form.verify@,
            ));
        }
        if text_eq(actor_slug, target_slug.as_str()) {
            Ok(SessionChange::Forget)
        } else {
            Ok(SessionChange::Keep)
        }
    }

    /// Creates the first administrator under the identifier and salt given,
    /// at the second `now`, unless the address belongs to a user already.
    ///
    /// The name, the address and the password are trimmed, the address is
    /// lowercased. Where the address belongs to a user nothing changes and
    /// the call succeeds, whatever the other fields hold. Otherwise it fails
    /// with `InvalidInput` where a field is empty, then with `Conflict`
    /// where the identifier or the slug is in use, then with `InvalidInput`
    /// where the address is not canonical or the hasher does not accept
    /// password and salt; a failure changes nothing. Returns whether a user
    /// was created: it is an administrator with a validated address.
    pub fn bootstrap_admin_with(
        &mut self,
        name: &str,
        email: &str,
        password: &str,
        id: u128,
        salt: String,
        now: i64,
    ) -> (r: Result<bool, AuthError>)
        requires
            old(self).wf(),
        ensures
            final(self).wf(),
            final(self).same_settings(old(self)),
            ({
                let e = Enrolment { name: name@, email: email@, password: password@, salt: salt@, now };
                &&& final(self)@ == bootstrap_next(old(self)@, e, id)
                &&& bootstrap_result(old(self)@, e, id, r)
            }),
    {
        let ghost before = self@;
        let ghost e = Enrolment { name: name@, email: email@, password: password@, salt: salt@, now };
        let data = UserData {
            user_name: name.to_owned(),
            email: email.to_owned(),
            password: password.to_owned(),
            role: Role::Admin,
            validated: true,
        };
        let trimmed_address = trim(email);
        let lookup = trimmed_address.as_str().to_lowercase();
        if self.users.find_from_email(&lookup).is_ok() {
            return Ok(false);
        }
        let user = match self.users.check_enrolment(&data, id, salt, now) {
            Ok(u) => u,
            Err(err) => {
                return Err(err);
            },
        };
        let address = user.email.clone();
        match self.users.insert(user) {
            Ok(_) => {},
            Err(err) => {
                // Not reached: the keys of the user were found free.
                return Err(err);
            },
        }
        self.codes.remove_email(&address);
        self.passwords = Ghost(self.passwords@.insert(id, trimmed(password@)));
        proof {
            lemma_bootstrap_wf(before, e, id);
            assert(self@ == bootstrap_next(before, e, id));
        }
        Ok(true)
    }

    /// Removes the verification codes and the reset tokens that are no
    /// longer honored at the second `now`. Returns how many of each were
    /// removed.
    pub fn purge_expired_at(&mut self, now: i64) -> (n: (usize, usize))
        requires
            old(self).wf(),
        ensures
            final(self).wf(),
            final(self).same_settings(old(self)),
            final(self)@ == purge_next(old(self)@, now),
            n.0 == old(self)@.codes.len() - final(self)@.codes.len(),
            n.1 == old(self)@.resets.len() - final(self)@.resets.len(),
    {
        let ghost before = self@;
        let codes = self.codes.purge_expired(now);
        let resets = self.resets.purge_expired(now);
        proof {
            lemma_purge_wf(before, now);
            assert(self@ == purge_next(before, now));
        }
        (codes, resets)
    }
}

} // verus!
