//! The kinds of failure that the operations report.

use vstd::prelude::*;

verus! {

/// Why an operation did not succeed.
#[derive(Clone, Copy, Debug, PartialEq, Eq, Structural)]
pub enum AuthError {
    /// A field was empty or malformed.
    InvalidInput,
    /// The address is unknown or the password is wrong.
    InvalidCredentials,
    /// The verification code is unknown, wrong or expired.
    InvalidCode,
    /// The reset token is unknown or expired.
    InvalidToken,
    /// The user does not exist.
    NotFound,
    /// The address, the slug or the identifier is already in use.
    Conflict,
    /// The actor may not do this.
    Forbidden,
    /// The confirmation does not match the name of the user to delete.
    ConfirmationMismatch,
    /// The change would leave no administrator.
    LastAdmin,
    /// The address was validated before.
    AlreadyValidated,
    /// The store could not be reached.
    StoreUnavailable,
    /// The mailer could not be reached.
    MailerUnavailable,
    /// A fault of the program itself.
    Internal,
}

} // verus!
