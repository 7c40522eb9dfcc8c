//! Injected ambient capabilities: fresh identifiers and the current time.
//!
//! The store never promises anything about the values these hand back
//! beyond their shape; identifiers are believed process-wide unique by
//! the generators' own design.

use vstd::prelude::*;

verus! {

/// Relies on uuid::Uuid::new_v4 and its Display form: a fresh random
/// version-4 UUID written hyphenated, which is always 36 characters.
#[verifier::external_body]
pub(crate) fn fresh_uuid() -> (r: String)
    ensures
        r@.len() == 36,
{
    uuid::Uuid::new_v4().to_string()
}

/// Relies on std::time::SystemTime::now and duration_since: the seconds
/// since the Unix epoch, or 0 should the clock read before the epoch.
#[verifier::external_body]
pub(crate) fn now_secs() -> (r: u64) {
    match std::time::SystemTime::now().duration_since(std::time::UNIX_EPOCH) {
        Ok(d) => d.as_secs(),
        Err(_) => 0,
    }
}

/// Relies on yit_id_generator::NextId: a fresh process-wide numeric id,
/// taken to its low 32 bits for the numeric user id.
#[verifier::external_body]
pub(crate) fn fresh_user_id() -> (r: u32) {
    yit_id_generator::NextId() as u32
}

} // verus!
