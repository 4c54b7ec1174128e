//! Fresh identities and timestamps, drawn from the `uuid` and `chrono`
//! crates behind trusted wrappers.

use vstd::prelude::*;

verus! {

/// Relies on `uuid::Uuid::new_v4` and its `Display` impl: a random
/// version-4 UUID rendered in the hyphenated form, which is exactly 36
/// characters long.
#[verifier::external_body]
pub fn new_uuid() -> (r: String)
    ensures
        r@.len() == 36,
{
    uuid::Uuid::new_v4().to_string()
}

/// Relies on `chrono::Utc::now`: seconds since the Unix epoch, as the clock
/// reports them.
#[verifier::external_body]
fn timestamp_now() -> (r: i64) {
    chrono::Utc::now().timestamp()
}

/// The current time in whole seconds since the Unix epoch, clamped below at
/// zero so that it always fits the unsigned claim fields.
pub fn current_timestamp() -> (r: u64)
    ensures
        r <= i64::MAX as u64,
{
    let t = timestamp_now();
    if t < 0 {
        0
    } else {
        t as u64
    }
}

} // verus!
