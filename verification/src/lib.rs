//! Identity and credential management for an organisational directory:
//! canonical text forms, secret material, the credential and token stores,
//! the authentication state machine and the authorisation predicates.

pub mod authz;
pub mod clock;
pub mod codec;
pub mod contract;
pub mod enrol;
pub mod error;
pub mod forms;
pub mod invariants;
pub mod laws;
pub mod live;
pub mod machine;
pub mod outcome;
pub mod role;
pub mod service;
pub mod slug;
pub mod store;
pub mod text;
pub mod tokens;
pub mod user;

pub use authz::{has_role, is_admin, is_self_or_admin, Access, Denial};
pub use codec::{generate_unique_code, insert_dashes, make_hash, make_salt, verify};
pub use error::AuthError;
pub use forms::{
    AdminUserForm,
    DeleteForm,
    EmailForm,
    LoginForm,
    PasswordForm,
    RegisterForm,
    UserForm,
    VerifyForm,
};
pub use outcome::{
    MailKind,
    MailRequest,
    ProfileChange,
    Registration,
    SessionAssertion,
    SessionChange,
    APP_NAME,
};
pub use role::Role;
pub use service::AuthService;
pub use store::CredentialStore;
pub use tokens::{TokenRecord, TokenStore};
pub use user::{InsertableUser, LoggedUser, SlimUser, User, UserData};
