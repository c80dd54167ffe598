//! Who may act on whom: predicates over the actor's slug and role and the
//! target's slug.

use vstd::prelude::*;
use crate::error::AuthError;
use crate::role::admin_name;
use crate::text::text_eq;
use crate::user::LoggedUser;

verus! {

/// Why access was refused.
#[derive(Clone, Copy, Debug, PartialEq, Eq, Structural)]
pub enum Denial {
    /// The actor is no administrator.
    NotAdmin,
    /// The actor is neither the target nor an administrator.
    NotSelfOrAdmin,
}

/// The answer of a predicate.
#[derive(Clone, Copy, Debug, PartialEq, Eq, Structural)]
pub enum Access {
    Allowed,
    Forbidden(Denial),
}

/// Whether a role text names the administrator.
pub open spec fn names_admin(actor_role: Seq<char>) -> bool {
    actor_role == admin_name()
}

/// Whether an actor is the target or an administrator.
pub open spec fn self_or_admin(
    actor_slug: Seq<char>,
    actor_role: Seq<char>,
    target_slug: Seq<char>,
) -> bool {
    actor_slug == target_slug || names_admin(actor_role)
}

/// Allows an administrator.
pub fn is_admin(actor_role: &str) -> (a: Access)
    ensures
        a == if names_admin(actor_role@) {
            Access::Allowed
        } else {
            Access::Forbidden(Denial::NotAdmin)
        },
{
    if text_eq(actor_role, "admin") {
        Access::Allowed
    } else {
        Access::Forbidden(Denial::NotAdmin)
    }
}

/// Allows the target itself and an administrator.
pub fn is_self_or_admin(actor_slug: &str, actor_role: &str, target_slug: &str) -> (a: Access)
    ensures
        a == if self_or_admin(actor_slug@, actor_role@, target_slug@) {
            Access::Allowed
        } else {
            Access::Forbidden(Denial::NotSelfOrAdmin)
        },
{
    if text_eq(actor_slug, target_slug) || text_eq(actor_role, "admin") {
        Access::Allowed
    } else {
        Access::Forbidden(Denial::NotSelfOrAdmin)
    }
}

/// Whether somebody is signed in under the role that `role` names.
pub open spec fn holds_role(user: LoggedUser, role: Seq<char>) -> bool {
    match user.0 {
        Some(u) => u.role.name() == role,
        None => false,
    }
}

/// Succeeds with `true` if somebody is signed in under the given role, and
/// fails with `Forbidden` otherwise.
pub fn has_role(user: &LoggedUser, role: &str) -> (r: Result<bool, AuthError>)
    ensures
        r == if holds_role(*user, role@) {
            Ok::<bool, AuthError>(true)
        } else {
            Err::<bool, AuthError>(AuthError::Forbidden)
        },
{
    match &user.0 {
        Some(u) => {
            if text_eq(u.role.as_str(), role) {
                Ok(true)
            } else {
                Err(AuthError::Forbidden)
            }
        },
        None => Err(AuthError::Forbidden),
    }
}

} // verus!
