//! Calls into the host's clock, entropy source and calendar library.
//! Each is a trusted boundary: the engines take the values these return
//! as arguments and are verified for every value.

use vstd::prelude::*;
use crate::ids::Token;

verus! {

/// The RFC 3339 rendering of an epoch timestamp; a function of the
/// timestamp alone.
pub uninterp spec fn rfc3339_of(t: i64) -> Seq<char>;

/// Relies on chrono's `Utc::now` and `DateTime::timestamp`: the current
/// time as whole seconds since the epoch. Nothing is promised of the
/// value; callers must hold for every reading.
#[verifier::external_body]
pub fn now_timestamp() -> i64 {
    chrono::Utc::now().timestamp()
}

/// Relies on uuid's `Uuid::new_v4` and `Uuid::as_u128`: 128 bits holding
/// fresh randomness for a session token. Nothing is promised of the
/// value; callers must hold for every drawing.
#[verifier::external_body]
pub fn fresh_token() -> Token {
    uuid::Uuid::new_v4().as_u128()
}

/// Relies on chrono's `DateTime::from_timestamp` and
/// `DateTime::to_rfc3339`: the fixed-format calendar rendering of a
/// timestamp, which depends on the timestamp alone (out-of-range
/// timestamps render empty).
#[verifier::external_body]
pub fn format_rfc3339(t: i64) -> (r: String)
    ensures
        r@ == rfc3339_of(t),
{
    match chrono::DateTime::from_timestamp(t, 0) {
        Some(dt) => dt.to_rfc3339(),
        None => String::new(),
    }
}

} // verus!
