//! The two ambient facts the store needs from outside: fresh identifiers
//! and the current time.

use vstd::prelude::*;

verus! {

/// A fresh random identifier in the 32-digit hexadecimal form.
///
/// Relies on `uuid::Uuid::new_v4` and its simple formatter: the result is
/// random, so nothing is promised beyond its documented length; whether an
/// identifier is genuinely unused is re-checked by the repository on insert.
#[verifier::external_body]
pub(crate) fn new_id() -> (r: String)
    ensures
        r@.len() == 32,
{
    uuid::Uuid::new_v4().simple().to_string()
}

/// The current time as seconds since the epoch.
///
/// Relies on `chrono::Utc::now`: the result depends on the clock, so nothing
/// is promised of it.
#[verifier::external_body]
pub(crate) fn now_timestamp() -> (r: u64)
{
    chrono::Utc::now().timestamp() as u64
}

} // verus!
