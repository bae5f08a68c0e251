//! Fresh identifiers and timestamps, drawn from the outside world.
//!
//! Identifiers are version-4 UUIDs rendered in their canonical hyphenated
//! lowercase form; timestamps are seconds since the Unix epoch. Both are
//! nondeterministic, so their contracts state only what holds of every
//! outcome.

use vstd::prelude::*;

verus! {

/// Relies on uuid's `Uuid::new_v4` and its `Display` rendering: the
/// canonical hyphenated form of a random 128-bit identifier, 36 characters
/// long. The value itself is random, so nothing more is promised.
#[verifier::external_body]
pub(crate) fn generate_uuid() -> (r: String)
    ensures
        r@.len() == 36,
{
    uuid::Uuid::new_v4().to_string()
}

/// Relies on chrono's `Utc::now` and `DateTime::timestamp`: the current
/// moment as whole seconds since the Unix epoch. The clock decides the
/// value, so nothing is promised of it.
#[verifier::external_body]
pub(crate) fn current_timestamp() -> i64 {
    chrono::Utc::now().timestamp()
}

} // verus!
