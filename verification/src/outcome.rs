//! What the operations of the service hand back for the caller to act on:
//! the binding of a session and the mail to send.

use vstd::prelude::*;
use crate::user::User;

verus! {

/// The name of the application, as it stands in the subject of a mail.
pub const APP_NAME: &'static str = "People Data";

/// The binding of a session to the slug of a user. The carrier of the
/// session seals it.
#[derive(Debug)]
pub struct SessionAssertion {
    pub slug: String,
}

/// The two mails that the service asks for.
#[derive(Clone, Copy, Debug, PartialEq, Eq, Structural)]
pub enum MailKind {
    /// The mail that carries a verification code.
    Verification,
    /// The mail that carries a reset token.
    PasswordReset,
}

/// The subject of a mail of the given kind.
pub open spec fn subject_of(kind: MailKind) -> Seq<char> {
    match kind {
        MailKind::Verification => "Email Verification Code - People Data"@,
        MailKind::PasswordReset => "Password Reset - People Data"@,
    }
}

/// A mail for the caller to render and send.
#[derive(Debug)]
pub struct MailRequest {
    pub kind: MailKind,
    /// The recipient.
    pub to: String,
    pub subject: String,
    /// The code or the token that the mail carries.
    pub secret: String,
    /// The address of the application, for the links in the mail.
    pub application_base_url: String,
}

impl MailRequest {
    /// Whether this is the mail of the given kind to `to`, with its
    /// subject, that carries `secret` and the address `base_url`.
    pub open spec fn carries(
        self,
        kind: MailKind,
        to: Seq<char>,
        secret: Seq<char>,
        base_url: Seq<char>,
    ) -> bool {
        &&& self.kind == kind
        &&& self.to@ == to
        &&& self.subject@ == subject_of(kind)
        &&& self.secret@ == secret
        &&& self.application_base_url@ == base_url
    }

    /// The mail of the given kind to `to` that carries `secret`.
    pub fn new(kind: MailKind, to: &str, secret: &str, base_url: &str) -> (m: MailRequest)
        ensures
            m.carries(kind, to@, secret@, base_url@),
    {
        let subject = match kind {
            MailKind::Verification => "Email Verification Code - People Data",
            MailKind::PasswordReset => "Password Reset - People Data",
        };
        MailRequest {
            kind,
            to: to.to_owned(),
            subject: subject.to_owned(),
            secret: secret.to_owned(),
            application_base_url: base_url.to_owned(),
        }
    }
}

/// What the caller is to do with the session at hand.
#[derive(Debug)]
pub enum SessionChange {
    /// Leave it as it is.
    Keep,
    /// Drop it and attach this one.
    Rebind(SessionAssertion),
    /// Drop it.
    Forget,
}

/// What a registration hands back: the new user, the binding of its
/// session, and the mail with its verification code.
#[derive(Debug)]
pub struct Registration {
    pub user: User,
    pub session: SessionAssertion,
    pub mail: MailRequest,
}

/// What a change of profile hands back.
#[derive(Debug)]
pub struct ProfileChange {
    /// The user as it is stored now.
    pub user: User,
    /// Whether anything changed.
    pub changed: bool,
    /// What becomes of the session: it is bound anew where the actor
    /// changed its own name.
    pub session: SessionChange,
    /// The mail with the verification code, where the address changed.
    pub mail: Option<MailRequest>,
}

} // verus!
