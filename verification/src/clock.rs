//! The wall clock and the source of identifiers.

use vstd::prelude::*;

verus! {

/// `chrono::Utc::now`, as `timestamp` gives it: the seconds since the
/// epoch, in UTC, at the moment of the call. Nothing is known of the value.
/// Where the clock of the system reads a time before the epoch the program
/// ends.
#[verifier::external_body]
pub(crate) fn utc_now() -> (now: i64) {
    chrono::Utc::now().timestamp()
}

/// `uuid::Uuid::new_v4`, as `as_u128` gives it: a random identifier of 128
/// bits. Nothing is known of the value. Where the operating system gives no
/// random bytes the program ends.
#[verifier::external_body]
pub(crate) fn fresh_id() -> (id: u128) {
    uuid::Uuid::new_v4().as_u128()
}

/// Whether a record issued at `now` for `ttl` seconds has an expiry that
/// the clock can show.
pub open spec fn can_expire(now: i64, ttl: u32) -> bool {
    now + ttl <= i64::MAX
}

/// Tells whether a record issued at `now` for `ttl` seconds has an expiry
/// that the clock can show.
pub fn check_can_expire(now: i64, ttl: u32) -> (b: bool)
    ensures
        b == can_expire(now, ttl),
{
    now <= i64::MAX - (ttl as i64)
}

} // verus!
