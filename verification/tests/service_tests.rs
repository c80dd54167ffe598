use people_data::{
    AdminUserForm, AuthError, AuthService, DeleteForm, EmailForm, LoginForm, MailKind,
    PasswordForm, RegisterForm, Role, SessionAssertion, SessionChange, UserForm, VerifyForm,
};

const SALT_A: &str = "salt-for-ada-0001";
const SALT_B: &str = "salt-for-bob-0002";
const HOUR: i64 = 3600;
const T0: i64 = 1_700_000_000;

fn service() -> AuthService {
    AuthService::new("http://localhost:8088".to_string())
}

fn register_form(name: &str, email: &str, password: &str) -> RegisterForm {
    RegisterForm {
        user_name: name.to_string(),
        email: email.to_string(),
        password: password.to_string(),
    }
}

fn login_form(email: &str, password: &str) -> LoginForm {
    LoginForm { email: email.to_string(), password: password.to_string() }
}

fn verify_form(code: &str) -> VerifyForm {
    VerifyForm { code: code.to_string() }
}

fn user_form(name: &str, email: &str) -> UserForm {
    UserForm { user_name: name.to_string(), email: email.to_string() }
}

fn admin_form(name: &str, email: &str, role: &str, validated: &str) -> AdminUserForm {
    AdminUserForm {
        user_name: name.to_string(),
        email: email.to_string(),
        role: role.to_string(),
        validated: validated.to_string(),
    }
}

fn delete_form(verify: &str) -> DeleteForm {
    DeleteForm { verify: verify.to_string() }
}

/// A service with the administrator `root` (identifier 1) and the user
/// `Ada Lovelace` (identifier 2), whose code is `ABCD-E`.
fn populated() -> AuthService {
    let mut s = service();
    assert_eq!(
        s.bootstrap_admin_with("Root", "root@example.com", "toor", 1, SALT_B.to_string(), T0),
        Ok(true)
    );
    s.register_with(
        &register_form("Ada Lovelace", "ada@example.com", "hunter2"),
        2,
        SALT_A.to_string(),
        20,
        "ABCD-E".to_string(),
        T0,
    )
    .unwrap();
    s
}

#[test]
fn new_service_is_empty() {
    let s = service();
    assert_eq!(s.users().len(), 0);
    assert_eq!(s.codes().len(), 0);
    assert_eq!(s.resets().len(), 0);
    assert_eq!(s.application_base_url(), "http://localhost:8088");
    assert_eq!(s.verification_ttl(), 86_400);
    assert_eq!(s.reset_ttl(), 7_200);
    let t = AuthService::with_lifetimes("x".to_string(), 10, 20);
    assert_eq!(t.verification_ttl(), 10);
    assert_eq!(t.reset_ttl(), 20);
}

#[test]
fn register_verify_login() {
    let mut s = service();
    let reg = s
        .register(&register_form("Ada Lovelace", "  Ada@Example.COM ", "hunter2"))
        .unwrap();
    assert_eq!(reg.user.email, "ada@example.com");
    assert_eq!(reg.user.slug, "ada_lovelace");
    assert_eq!(reg.user.user_name, "Ada Lovelace");
    assert_eq!(reg.user.role, Role::User);
    assert!(!reg.user.validated);
    assert_eq!(reg.session.slug, "ada_lovelace");
    assert_eq!(reg.mail.kind, MailKind::Verification);
    assert_eq!(reg.mail.to, "ada@example.com");
    assert_eq!(reg.mail.subject, "Email Verification Code - People Data");
    assert_eq!(reg.mail.application_base_url, "http://localhost:8088");
    let stored = s.users().find_from_email(&"ada@example.com".to_string()).unwrap();
    assert_eq!(stored.id, reg.user.id);
    assert!(!stored.validated);

    let verified = s.verify_email(reg.user.id, &verify_form(&reg.mail.secret)).unwrap();
    assert!(verified.validated);
    assert!(s.users().find(reg.user.id).unwrap().validated);
    assert_eq!(s.codes().len(), 0);

    let session = s.login(&login_form("ada@example.com", "hunter2")).unwrap();
    assert_eq!(session.slug, "ada_lovelace");
    assert_eq!(
        s.login(&login_form("ada@example.com", "wrong")).err(),
        Some(AuthError::InvalidCredentials)
    );
}

#[test]
fn register_with_is_exact() {
    let mut s = service();
    let reg = s
        .register_with(
            &register_form(" Ada Lovelace ", "ADA@example.com", " hunter2 "),
            7,
            SALT_A.to_string(),
            70,
            "WXYZ-1".to_string(),
            T0,
        )
        .unwrap();
    assert_eq!(reg.user.id, 7);
    assert_eq!(reg.user.salt, SALT_A);
    assert_eq!(reg.user.created_at, T0);
    assert_eq!(reg.mail.secret, "WXYZ-1");
    let code = s.codes().find_by_email(&"ada@example.com".to_string()).unwrap();
    assert_eq!(code.id, 70);
    assert_eq!(code.secret, "WXYZ-1");
    assert_eq!(code.expires_at, T0 + 24 * HOUR);
    assert!(people_data::verify(&reg.user, "hunter2"));
}

#[test]
fn register_refuses_unusable_fields() {
    let mut s = service();
    let bad = [
        register_form("", "ada@example.com", "pw"),
        register_form("   ", "ada@example.com", "pw"),
        register_form("Ada", "", "pw"),
        register_form("Ada", "ada@example.com", " "),
    ];
    for form in bad.iter() {
        assert_eq!(s.register(form).err(), Some(AuthError::InvalidInput));
    }
    assert_eq!(
        s.register_with(
            &register_form("Ada", "ada@example.com", "pw"),
            1,
            "short".to_string(),
            2,
            "c".to_string(),
            T0
        )
        .err(),
        Some(AuthError::InvalidInput)
    );
    assert_eq!(s.users().len(), 0);
    assert_eq!(s.codes().len(), 0);
}

#[test]
fn register_refuses_a_taken_address_or_slug() {
    let mut s = populated();
    assert_eq!(
        s.register(&register_form("Another", " ADA@example.com", "pw")).err(),
        Some(AuthError::Conflict)
    );
    assert_eq!(
        s.register(&register_form("ada lovelace", "other@example.com", "pw")).err(),
        Some(AuthError::Conflict)
    );
    assert_eq!(
        s.register_with(
            &register_form("New", "new@example.com", "pw"),
            2,
            SALT_A.to_string(),
            9,
            "c".to_string(),
            T0
        )
        .err(),
        Some(AuthError::Conflict)
    );
    assert_eq!(s.users().len(), 2);
    assert_eq!(s.codes().len(), 1);
}

#[test]
fn verification_is_idempotent_after_success() {
    let mut s = populated();
    let before = s.users().find(2).unwrap();
    assert!(!before.validated);
    let u = s.verify_email_at(2, &verify_form(" ABCD-E "), T0 + HOUR).unwrap();
    assert!(u.validated);
    assert_eq!(u.created_at, before.created_at);
    assert_eq!(u.hash, before.hash);
    assert_eq!(
        s.verify_email_at(2, &verify_form("ABCD-E"), T0 + HOUR).err(),
        Some(AuthError::AlreadyValidated)
    );
    assert_eq!(
        s.verify_email_at(2, &verify_form("whatever"), T0 + 100 * HOUR).err(),
        Some(AuthError::AlreadyValidated)
    );
    assert!(s.users().find(2).unwrap().validated);
    assert_eq!(s.users().len(), 2);
    assert_eq!(s.codes().len(), 0);
}

#[test]
fn wrong_or_expired_code_is_refused() {
    let mut s = populated();
    assert_eq!(
        s.verify_email_at(2, &verify_form("ABCD-F"), T0).err(),
        Some(AuthError::InvalidCode)
    );
    assert_eq!(
        s.verify_email_at(2, &verify_form("ABCD-E"), T0 + 24 * HOUR + 1).err(),
        Some(AuthError::InvalidCode)
    );
    assert!(!s.users().find(2).unwrap().validated);
    assert_eq!(s.codes().len(), 1);
    assert_eq!(
        s.verify_email_at(99, &verify_form("ABCD-E"), T0).err(),
        Some(AuthError::NotFound)
    );
    assert!(s.verify_email_at(2, &verify_form("ABCD-E"), T0 + 24 * HOUR).is_ok());
}

#[test]
fn code_that_was_purged_is_unknown() {
    let mut s = populated();
    assert_eq!(s.purge_expired_at(T0 + 25 * HOUR), (1, 0));
    assert_eq!(
        s.verify_email_at(2, &verify_form("ABCD-E"), T0 + 25 * HOUR).err(),
        Some(AuthError::InvalidCode)
    );
    let mail = s.resend_verification(2).unwrap();
    assert!(s.verify_email(2, &verify_form(&mail.secret)).is_ok());
}

#[test]
fn second_code_supersedes_the_first() {
    let mut s = populated();
    let first = s.resend_verification_with(2, 21, "FIRS-T".to_string(), T0 + 1).unwrap();
    let second = s.resend_verification_with(2, 22, "SECO-N".to_string(), T0 + 2).unwrap();
    assert_eq!(first.secret, "FIRS-T");
    assert_eq!(second.secret, "SECO-N");
    assert_eq!(second.to, "ada@example.com");
    assert_eq!(second.kind, MailKind::Verification);
    assert_eq!(s.codes().len(), 1);
    let held = s.codes().find_by_email(&"ada@example.com".to_string()).unwrap();
    assert_eq!(held.secret, "SECO-N");
    assert_eq!(held.expires_at, T0 + 2 + 24 * HOUR);
    assert_eq!(
        s.verify_email_at(2, &verify_form("FIRS-T"), T0 + 3).err(),
        Some(AuthError::InvalidCode)
    );
    assert!(s.verify_email_at(2, &verify_form("SECO-N"), T0 + 3).is_ok());
}

#[test]
fn resend_refuses_unknown_and_validated_users() {
    let mut s = populated();
    assert_eq!(
        s.resend_verification_with(99, 1, "c".to_string(), T0).err(),
        Some(AuthError::NotFound)
    );
    assert_eq!(
        s.resend_verification_with(1, 1, "c".to_string(), T0).err(),
        Some(AuthError::AlreadyValidated)
    );
    assert_eq!(s.resend_verification(1).err(), Some(AuthError::AlreadyValidated));
    assert_eq!(s.codes().len(), 1);
}

#[test]
fn login_gives_one_error_for_unknown_address_and_wrong_password() {
    let s = populated();
    let unknown = s.login(&login_form("nobody@example.com", "hunter2")).err();
    let wrong = s.login(&login_form("ada@example.com", "hunter3")).err();
    assert_eq!(unknown, Some(AuthError::InvalidCredentials));
    assert_eq!(wrong, unknown);
    assert_eq!(s.login(&login_form("", "")).err(), Some(AuthError::InvalidCredentials));
    assert_eq!(
        s.login(&login_form("  ADA@Example.com ", " hunter2 ")).unwrap().slug,
        "ada_lovelace"
    );
    assert_eq!(s.login(&login_form("root@example.com", "toor")).unwrap().slug, "root");
}

#[test]
fn logout_forgets_the_session() {
    let s = populated();
    let change = s.logout(SessionAssertion { slug: "ada_lovelace".to_string() });
    assert!(matches!(change, SessionChange::Forget));
    assert_eq!(s.users().len(), 2);
}

#[test]
fn reset_with_expired_token() {
    let mut s = populated();
    let mail = s
        .request_password_reset_with(
            &EmailForm { email: "ada@example.com".to_string() },
            30,
            "T".repeat(32),
            T0,
        )
        .unwrap();
    assert_eq!(mail.kind, MailKind::PasswordReset);
    assert_eq!(mail.subject, "Password Reset - People Data");
    assert_eq!(mail.to, "ada@example.com");
    let token = mail.secret.clone();
    assert_eq!(s.resets().find_by_token(&token).unwrap().expires_at, T0 + 2 * HOUR);
    let r = s.confirm_password_reset_with(
        &token,
        &PasswordForm { password: "new".to_string() },
        SALT_B.to_string(),
        T0 + 3 * HOUR,
    );
    assert_eq!(r.err(), Some(AuthError::InvalidToken));
    assert_eq!(s.resets().len(), 1);
    assert!(s.login(&login_form("ada@example.com", "hunter2")).is_ok());
    assert_eq!(s.purge_expired_at(T0 + 3 * HOUR), (0, 1));
    assert_eq!(s.resets().len(), 0);
}

#[test]
fn reset_for_an_unknown_address_is_silent() {
    let mut s = populated();
    let r = s.request_password_reset(&EmailForm { email: "nobody@x".to_string() });
    assert!(r.is_none());
    assert_eq!(s.resets().len(), 0);
    let r = s.request_password_reset_with(
        &EmailForm { email: "nobody@x".to_string() },
        1,
        "t".to_string(),
        T0,
    );
    assert!(r.is_none());
    assert_eq!(s.resets().len(), 0);
}

#[test]
fn reset_then_login_with_the_new_password() {
    let mut s = populated();
    let mail = s
        .request_password_reset(&EmailForm { email: " Ada@example.com ".to_string() })
        .unwrap();
    assert_eq!(mail.secret.len(), 32);
    let before = s.users().find(2).unwrap();
    let session = s
        .confirm_password_reset(&mail.secret, &PasswordForm { password: " s3cret ".to_string() })
        .unwrap();
    assert_eq!(session.slug, "ada_lovelace");
    let after = s.users().find(2).unwrap();
    assert_ne!(after.salt, before.salt);
    assert_ne!(after.hash, before.hash);
    assert_eq!(s.resets().len(), 0);
    assert!(s.login(&login_form("ada@example.com", "s3cret")).is_ok());
    assert_eq!(
        s.login(&login_form("ada@example.com", "hunter2")).err(),
        Some(AuthError::InvalidCredentials)
    );
    assert_eq!(
        s.confirm_password_reset(&mail.secret, &PasswordForm { password: "again".to_string() })
            .err(),
        Some(AuthError::InvalidToken)
    );
}

#[test]
fn reset_refuses_an_empty_password_and_unknown_tokens() {
    let mut s = populated();
    s.request_password_reset_with(
        &EmailForm { email: "ada@example.com".to_string() },
        30,
        "token".to_string(),
        T0,
    )
    .unwrap();
    let token = "token".to_string();
    assert_eq!(
        s.confirm_password_reset_with(
            &token,
            &PasswordForm { password: "  ".to_string() },
            SALT_B.to_string(),
            T0
        )
        .err(),
        Some(AuthError::InvalidInput)
    );
    assert_eq!(
        s.confirm_password_reset_with(
            &token,
            &PasswordForm { password: "new".to_string() },
            "short".to_string(),
            T0
        )
        .err(),
        Some(AuthError::InvalidInput)
    );
    assert_eq!(
        s.confirm_password_reset_with(
            &"other".to_string(),
            &PasswordForm { password: "new".to_string() },
            SALT_B.to_string(),
            T0
        )
        .err(),
        Some(AuthError::InvalidToken)
    );
    assert_eq!(s.resets().len(), 1);
    assert!(s.login(&login_form("ada@example.com", "hunter2")).is_ok());
}

#[test]
fn reset_for_a_deleted_user_is_not_found() {
    let mut s = populated();
    s.request_password_reset_with(
        &EmailForm { email: "ada@example.com".to_string() },
        30,
        "token".to_string(),
        T0,
    )
    .unwrap();
    s.delete("root", "admin", &"ada_lovelace".to_string(), &delete_form("Ada Lovelace")).unwrap();
    assert_eq!(
        s.confirm_password_reset_with(
            &"token".to_string(),
            &PasswordForm { password: "new".to_string() },
            SALT_B.to_string(),
            T0
        )
        .err(),
        Some(AuthError::NotFound)
    );
}

#[test]
fn admin_demotion_blocked() {
    let mut s = populated();
    let r = s.admin_update(
        "admin",
        &"root".to_string(),
        &admin_form("Root", "root@example.com", "user", "true"),
    );
    assert_eq!(r.err(), Some(AuthError::LastAdmin));
    assert_eq!(s.users().find(1).unwrap().role, Role::Admin);
    assert_eq!(s.users().count_admins(), 1);
}

#[test]
fn admin_demotion_allowed_while_another_admin_remains() {
    let mut s = populated();
    let promoted = s
        .admin_update(
            "admin",
            &"ada_lovelace".to_string(),
            &admin_form("Ada Lovelace", "ada@example.com", " Admin ", "true"),
        )
        .unwrap();
    assert_eq!(promoted.role, Role::Admin);
    assert!(promoted.validated);
    assert_eq!(s.codes().len(), 0);
    let demoted = s
        .admin_update(
            "admin",
            &"root".to_string(),
            &admin_form("Root", "root@example.com", "user", "true"),
        )
        .unwrap();
    assert_eq!(demoted.role, Role::User);
    assert_eq!(s.users().count_admins(), 1);
}

#[test]
fn admin_update_sets_profile_role_and_validation() {
    let mut s = populated();
    let u = s
        .admin_update(
            "admin",
            &"ada_lovelace".to_string(),
            &admin_form(" Ada King ", " ADA.KING@example.com ", "user", "no"),
        )
        .unwrap();
    assert_eq!(u.user_name, "Ada King");
    assert_eq!(u.slug, "ada_king");
    assert_eq!(u.email, "ada.king@example.com");
    assert!(!u.validated);
    assert_eq!(u.id, 2);
    assert_eq!(u.created_at, T0);
    assert!(s.login(&login_form("ada.king@example.com", "hunter2")).is_ok());
}

#[test]
fn admin_update_reports_its_errors() {
    let mut s = populated();
    let target = "ada_lovelace".to_string();
    let good = admin_form("Ada Lovelace", "ada@example.com", "user", "true");
    assert_eq!(s.admin_update("user", &target, &good).err(), Some(AuthError::Forbidden));
    assert_eq!(s.admin_update("", &target, &good).err(), Some(AuthError::Forbidden));
    assert_eq!(
        s.admin_update("admin", &"nobody".to_string(), &good).err(),
        Some(AuthError::NotFound)
    );
    assert_eq!(
        s.admin_update("admin", &target, &admin_form("", "ada@example.com", "user", "true")).err(),
        Some(AuthError::InvalidInput)
    );
    assert_eq!(
        s.admin_update("admin", &target, &admin_form("Ada", "  ", "user", "true")).err(),
        Some(AuthError::InvalidInput)
    );
    assert_eq!(
        s.admin_update("admin", &target, &admin_form("Ada", "ada@example.com", "owner", "true"))
            .err(),
        Some(AuthError::InvalidInput)
    );
    assert_eq!(
        s.admin_update("admin", &target, &admin_form("Ada", "root@example.com", "user", "true"))
            .err(),
        Some(AuthError::Conflict)
    );
    assert_eq!(
        s.admin_update("admin", &target, &admin_form("ROOT", "ada@example.com", "user", "true"))
            .err(),
        Some(AuthError::Conflict)
    );
    let ada = s.users().find(2).unwrap();
    assert_eq!(ada.user_name, "Ada Lovelace");
    assert!(!ada.validated);
}

#[test]
fn delete_with_wrong_confirmation() {
    let mut s = service();
    s.register_with(
        &register_form("Alice", "alice@example.com", "pw"),
        5,
        SALT_A.to_string(),
        50,
        "c".to_string(),
        T0,
    )
    .unwrap();
    let r = s.delete("alice", "user", &"alice".to_string(), &delete_form("Bob"));
    assert_eq!(r.err(), Some(AuthError::ConfirmationMismatch));
    assert_eq!(s.users().find(5).unwrap().user_name, "Alice");
    assert_eq!(s.users().len(), 1);
}

#[test]
fn delete_by_self_forgets_the_session() {
    let mut s = populated();
    let change = s
        .delete("ada_lovelace", "user", &"ada_lovelace".to_string(), &delete_form(" Ada Lovelace "))
        .unwrap();
    assert!(matches!(change, SessionChange::Forget));
    assert_eq!(s.users().len(), 1);
    assert_eq!(s.users().find(2).err(), Some(AuthError::NotFound));
    assert_eq!(
        s.login(&login_form("ada@example.com", "hunter2")).err(),
        Some(AuthError::InvalidCredentials)
    );
}

#[test]
fn delete_by_admin_keeps_the_session() {
    let mut s = populated();
    let change = s
        .delete("root", "admin", &"ada_lovelace".to_string(), &delete_form("Ada Lovelace"))
        .unwrap();
    assert!(matches!(change, SessionChange::Keep));
    assert_eq!(s.users().len(), 1);
}

#[test]
fn delete_reports_its_errors() {
    let mut s = populated();
    assert_eq!(
        s.delete("mallory", "user", &"ada_lovelace".to_string(), &delete_form("Ada Lovelace")).err(),
        Some(AuthError::Forbidden)
    );
    assert_eq!(
        s.delete("root", "admin", &"nobody".to_string(), &delete_form("Nobody")).err(),
        Some(AuthError::NotFound)
    );
    assert_eq!(
        s.delete("root", "admin", &"ada_lovelace".to_string(), &delete_form("ada lovelace")).err(),
        Some(AuthError::ConfirmationMismatch)
    );
    assert_eq!(s.users().len(), 2);
}

#[test]
fn name_change_reslugs_and_rebinds_the_session() {
    let mut s = service();
    let reg = s
        .register_with(
            &register_form("Ada L", "ada@example.com", "pw"),
            5,
            SALT_A.to_string(),
            50,
            "c".to_string(),
            T0,
        )
        .unwrap();
    assert_eq!(reg.session.slug, "ada_l");
    let change = s
        .update_profile("ada_l", "user", &"ada_l".to_string(), &user_form("Ada Lovelace", "ada@example.com"))
        .unwrap();
    assert!(change.changed);
    assert_eq!(change.user.slug, "ada_lovelace");
    assert_eq!(change.user.user_name, "Ada Lovelace");
    match change.session {
        SessionChange::Rebind(a) => assert_eq!(a.slug, "ada_lovelace"),
        other => panic!("the session is not bound anew: {:?}", other),
    }
    assert!(change.mail.is_none());
    assert_eq!(s.users().find_from_slug(&"ada_l".to_string()).err(), Some(AuthError::NotFound));
    assert_eq!(s.users().find_from_slug(&"ada_lovelace".to_string()).unwrap().id, 5);
}

#[test]
fn name_change_by_an_admin_keeps_the_session() {
    let mut s = populated();
    let change = s
        .update_profile("root", "admin", &"ada_lovelace".to_string(), &user_form("Ada King", "ada@example.com"))
        .unwrap();
    assert!(matches!(change.session, SessionChange::Keep));
    assert_eq!(change.user.slug, "ada_king");
}

#[test]
fn address_change_starts_a_new_verification() {
    let mut s = populated();
    s.verify_email_at(2, &verify_form("ABCD-E"), T0).unwrap();
    let change = s
        .update_profile_with(
            "ada_lovelace",
            "user",
            &"ada_lovelace".to_string(),
            &user_form("Ada Lovelace", " Ada@Analytical.Engine "),
            60,
            "NEWC-O".to_string(),
            T0 + 10,
        )
        .unwrap();
    assert!(change.changed);
    assert_eq!(change.user.email, "ada@analytical.engine");
    assert!(!change.user.validated);
    assert!(matches!(change.session, SessionChange::Keep));
    let mail = change.mail.unwrap();
    assert_eq!(mail.to, "ada@analytical.engine");
    assert_eq!(mail.secret, "NEWC-O");
    assert_eq!(mail.kind, MailKind::Verification);
    let held = s.codes().find_by_email(&"ada@analytical.engine".to_string()).unwrap();
    assert_eq!(held.expires_at, T0 + 10 + 24 * HOUR);
    assert!(s.verify_email_at(2, &verify_form("NEWC-O"), T0 + 20).unwrap().validated);
}

#[test]
fn unchanged_profile_is_a_stable_success() {
    let mut s = populated();
    let change = s
        .update_profile(
            "ada_lovelace",
            "user",
            &"ada_lovelace".to_string(),
            &user_form(" Ada Lovelace ", "ADA@example.com"),
        )
        .unwrap();
    assert!(!change.changed);
    assert!(matches!(change.session, SessionChange::Keep));
    assert!(change.mail.is_none());
    assert_eq!(change.user.id, 2);
    assert_eq!(s.codes().len(), 1);
}

#[test]
fn update_profile_reports_its_errors() {
    let mut s = populated();
    let target = "ada_lovelace".to_string();
    assert_eq!(
        s.update_profile("mallory", "user", &target, &user_form("X", "x@example.com")).err(),
        Some(AuthError::Forbidden)
    );
    assert_eq!(
        s.update_profile("root", "admin", &"nobody".to_string(), &user_form("X", "x@example.com"))
            .err(),
        Some(AuthError::NotFound)
    );
    assert_eq!(
        s.update_profile("ada_lovelace", "user", &target, &user_form(" ", "x@example.com")).err(),
        Some(AuthError::InvalidInput)
    );
    assert_eq!(
        s.update_profile("ada_lovelace", "user", &target, &user_form("Ada", "")).err(),
        Some(AuthError::InvalidInput)
    );
    assert_eq!(
        s.update_profile("ada_lovelace", "user", &target, &user_form("Ada", "root@example.com"))
            .err(),
        Some(AuthError::Conflict)
    );
    assert_eq!(
        s.update_profile("ada_lovelace", "user", &target, &user_form("Root", "ada@example.com"))
            .err(),
        Some(AuthError::Conflict)
    );
    assert_eq!(s.users().find(2).unwrap().email, "ada@example.com");
}

#[test]
fn bootstrap_creates_a_validated_admin_once() {
    let mut s = service();
    assert_eq!(s.bootstrap_admin(" Root ", " Root@Example.com ", " toor "), Ok(true));
    let root = s.users().find_from_email(&"root@example.com".to_string()).unwrap();
    assert_eq!(root.role, Role::Admin);
    assert!(root.validated);
    assert_eq!(root.slug, "root");
    assert_eq!(s.users().count_admins(), 1);
    assert_eq!(s.bootstrap_admin("Root Two", "root@example.com", "other"), Ok(false));
    assert_eq!(s.users().len(), 1);
    assert!(s.login(&login_form("root@example.com", "toor")).is_ok());
    assert_eq!(
        s.login(&login_form("root@example.com", "other")).err(),
        Some(AuthError::InvalidCredentials)
    );
}

#[test]
fn bootstrap_reports_its_errors() {
    let mut s = populated();
    assert_eq!(
        s.bootstrap_admin("", "second@example.com", "pw").err(),
        Some(AuthError::InvalidInput)
    );
    assert_eq!(
        s.bootstrap_admin("Ada Lovelace", "second@example.com", "pw").err(),
        Some(AuthError::Conflict)
    );
    assert_eq!(
        s.bootstrap_admin_with("Second", "second@example.com", "pw", 1, SALT_A.to_string(), T0).err(),
        Some(AuthError::Conflict)
    );
    assert_eq!(s.users().len(), 2);
}

#[test]
fn bootstrap_removes_a_stale_code_for_its_address() {
    let mut s = service();
    s.register_with(
        &register_form("Old", "root@example.com", "pw"),
        5,
        SALT_A.to_string(),
        50,
        "c".to_string(),
        T0,
    )
    .unwrap();
    s.delete("old", "user", &"old".to_string(), &delete_form("Old")).unwrap();
    assert_eq!(s.codes().len(), 1);
    assert_eq!(
        s.bootstrap_admin_with("Root", "root@example.com", "toor", 1, SALT_B.to_string(), T0),
        Ok(true)
    );
    assert_eq!(s.codes().len(), 0);
}

#[test]
fn purge_removes_only_what_has_expired() {
    let mut s = populated();
    s.request_password_reset_with(
        &EmailForm { email: "ada@example.com".to_string() },
        30,
        "token".to_string(),
        T0,
    );
    assert_eq!(s.purge_expired_at(T0 + 2 * HOUR), (0, 0));
    assert_eq!(s.purge_expired_at(T0 + 2 * HOUR + 1), (0, 1));
    assert_eq!(s.purge_expired_at(T0 + 24 * HOUR), (0, 0));
    assert_eq!(s.purge_expired_at(T0 + 24 * HOUR + 1), (1, 0));
    assert_eq!(s.purge_expired(), (0, 0));
    assert_eq!(s.users().len(), 2);
}

#[test]
fn stored_profiles_are_canonical_and_distinct() {
    let mut s = populated();
    s.register(&register_form("  Grace HOPPER ", " Grace@Example.ORG", "pw")).unwrap();
    let all = s.users().find_all();
    assert_eq!(all.len(), 3);
    for u in all.iter() {
        assert_eq!(u.email, u.email.trim().to_lowercase());
        assert_eq!(u.slug, people_data::slug::derive_slug(&u.user_name));
    }
    for (i, a) in all.iter().enumerate() {
        for b in all.iter().skip(i + 1) {
            assert_ne!(a.id, b.id);
            assert_ne!(a.email, b.email);
            assert_ne!(a.slug, b.slug);
        }
    }
    assert!(all.iter().any(|u| u.role == Role::Admin));
}

#[test]
fn name_with_digits_registers() {
    let mut s = service();
    let reg = s.register(&register_form("R2D2", "r2@example.com", "beep")).unwrap();
    assert_eq!(reg.user.slug, "r2d2");
    assert_eq!(reg.session.slug, "r2d2");
    let other = s.register(&register_form("B2B Sales", "sales@example.com", "pw")).unwrap();
    assert_eq!(other.user.slug, people_data::slug::derive_slug("B2B Sales"));
    assert_eq!(s.users().len(), 2);
}

#[test]
fn taken_address_or_slug_is_a_conflict_whatever_the_name() {
    let mut s = populated();
    assert_eq!(
        s.register(&register_form("R2D2", "ada@example.com", "pw")).err(),
        Some(AuthError::Conflict)
    );
    assert_eq!(
        s.register_with(
            &register_form("Ada Lovelace", "fresh@example.com", "pw"),
            9,
            "short".to_string(),
            90,
            "c".to_string(),
            T0
        )
        .err(),
        Some(AuthError::Conflict)
    );
    assert_eq!(s.users().len(), 2);
    assert_eq!(s.codes().len(), 1);
}

#[test]
fn clock_beyond_range_is_reported_last() {
    let mut s = populated();
    let late = i64::MAX - 10;
    assert_eq!(
        s.register_with(&register_form("", "x@example.com", "pw"), 9, SALT_A.to_string(), 90, "c".to_string(), late).err(),
        Some(AuthError::InvalidInput)
    );
    assert_eq!(
        s.register_with(&register_form("New", "ada@example.com", "pw"), 9, SALT_A.to_string(), 90, "c".to_string(), late).err(),
        Some(AuthError::Conflict)
    );
    assert_eq!(
        s.register_with(&register_form("New", "new@example.com", "pw"), 9, SALT_A.to_string(), 90, "c".to_string(), late).err(),
        Some(AuthError::Internal)
    );
    assert_eq!(
        s.resend_verification_with(99, 1, "c".to_string(), late).err(),
        Some(AuthError::NotFound)
    );
    assert_eq!(
        s.resend_verification_with(1, 1, "c".to_string(), late).err(),
        Some(AuthError::AlreadyValidated)
    );
    assert_eq!(
        s.resend_verification_with(2, 1, "c".to_string(), late).err(),
        Some(AuthError::Internal)
    );
    let target = "ada_lovelace".to_string();
    assert_eq!(
        s.update_profile_with("mallory", "user", &target, &user_form("A", "a@x"), 1, "c".to_string(), late).err(),
        Some(AuthError::Forbidden)
    );
    assert_eq!(
        s.update_profile_with("ada_lovelace", "user", &target, &user_form("A", "root@example.com"), 1, "c".to_string(), late).err(),
        Some(AuthError::Conflict)
    );
    assert_eq!(
        s.update_profile_with("ada_lovelace", "user", &target, &user_form("A", "a@x"), 1, "c".to_string(), late).err(),
        Some(AuthError::Internal)
    );
    let renamed = s
        .update_profile_with("ada_lovelace", "user", &target, &user_form("Ada King", "ada@example.com"), 1, "c".to_string(), late)
        .unwrap();
    assert_eq!(renamed.user.slug, "ada_king");
    assert!(s
        .request_password_reset_with(&EmailForm { email: "ada@example.com".to_string() }, 1, "t".to_string(), late)
        .is_none());
    assert_eq!(s.users().len(), 2);
    assert_eq!(s.codes().len(), 1);
    assert_eq!(s.resets().len(), 0);
}

#[test]
fn bootstrap_is_a_no_op_for_a_known_address_whatever_else_is_given() {
    let mut s = populated();
    assert_eq!(s.bootstrap_admin("", " ROOT@example.com ", ""), Ok(false));
    assert_eq!(
        s.bootstrap_admin_with("", "ada@example.com", "", 1, "short".to_string(), T0),
        Ok(false)
    );
    assert_eq!(s.users().len(), 2);
    assert_eq!(s.users().find(1).unwrap().user_name, "Root");
}

#[test]
fn issuing_a_code_leaves_the_codes_of_other_users() {
    let mut s = populated();
    s.register_with(
        &register_form("Grace Hopper", "grace@example.com", "pw"),
        3,
        SALT_B.to_string(),
        20,
        "ABCD-E".to_string(),
        T0 + 1,
    )
    .unwrap();
    assert_eq!(s.codes().len(), 2);
    assert!(s.verify_email_at(2, &verify_form("ABCD-E"), T0 + 2).is_ok());
    assert_eq!(s.codes().len(), 1);
    assert!(s.verify_email_at(3, &verify_form("ABCD-E"), T0 + 2).is_ok());
    assert_eq!(s.codes().len(), 0);
}

#[test]
fn consuming_a_token_leaves_the_tokens_of_other_users() {
    let mut s = populated();
    s.request_password_reset_with(&EmailForm { email: "ada@example.com".to_string() }, 7, "ada-token".to_string(), T0);
    s.request_password_reset_with(&EmailForm { email: "root@example.com".to_string() }, 7, "root-token".to_string(), T0);
    assert_eq!(s.resets().len(), 2);
    let session = s
        .confirm_password_reset_with(
            &"ada-token".to_string(),
            &PasswordForm { password: "next".to_string() },
            SALT_B.to_string(),
            T0 + 1,
        )
        .unwrap();
    assert_eq!(session.slug, "ada_lovelace");
    assert_eq!(s.resets().len(), 1);
    assert_eq!(s.resets().find_by_token(&"root-token".to_string()).unwrap().email, "root@example.com");
    assert!(s.login(&login_form("root@example.com", "toor")).is_ok());
}
