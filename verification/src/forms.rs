//! The records that carry what a person typed into a form.

use vstd::prelude::*;

verus! {

/// Sign-in: an address and a password.
#[derive(Debug)]
pub struct LoginForm {
    pub email: String,
    pub password: String,
}

/// Registration: a display name, an address and a password.
#[derive(Debug)]
pub struct RegisterForm {
    pub user_name: String,
    pub email: String,
    pub password: String,
}

/// The verification code a person received by mail.
#[derive(Debug)]
pub struct VerifyForm {
    pub code: String,
}

/// A new password.
#[derive(Debug)]
pub struct PasswordForm {
    pub password: String,
}

/// A change of one's own profile.
#[derive(Debug)]
pub struct UserForm {
    pub user_name: String,
    pub email: String,
}

/// A change of any profile by an administrator. `validated` is the text
/// `true` for a validated address; anything else means not validated.
#[derive(Debug)]
pub struct AdminUserForm {
    pub user_name: String,
    pub email: String,
    pub role: String,
    pub validated: String,
}

/// The address of an account whose password is to be reset.
#[derive(Debug)]
pub struct EmailForm {
    pub email: String,
}

/// The confirmation of a deletion: the display name of the user to delete.
#[derive(Debug)]
pub struct DeleteForm {
    pub verify: String,
}

} // verus!
