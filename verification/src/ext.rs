//! Wrappers around the outside calls the chat logic leans on: identifier
//! generation, timestamps and constant-time credential comparison. Each body
//! is taken on trust; the contracts state only what the callee's source and
//! documentation promise.

use vstd::prelude::*;

verus! {

/// Relies on uuid::Uuid::new_v4 and its Display rendering: a random
/// version-4 UUID printed in the hyphenated form, which is always 36
/// characters. Nothing more is promised of a random value.
#[verifier::external_body]
pub fn fresh_id() -> (r: String)
    ensures
        r@.len() == 36,
{
    uuid::Uuid::new_v4().to_string()
}

/// Relies on chrono::Utc::now and DateTime::to_rfc3339: the current instant
/// rendered as an RFC 3339 timestamp. The clock decides the value, so the
/// contract promises nothing of it.
#[verifier::external_body]
pub fn now_rfc3339() -> String {
    chrono::Utc::now().to_rfc3339()
}

/// Relies on constant_time_eq::constant_time_eq: whether the two byte strings
/// are equal, decided in constant time for equal-sized inputs.
#[verifier::external_body]
pub fn bytes_eq(a: &[u8], b: &[u8]) -> (r: bool)
    ensures
        r == (a@ == b@),
{
    constant_time_eq::constant_time_eq(a, b)
}

} // verus!
