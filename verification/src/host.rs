//! The few values only the host environment can produce: the wall clock
//! and fresh machine identifiers.

use vstd::prelude::*;

verus! {

/// Relies on chrono's `Utc::now`: the current wall-clock time, as
/// milliseconds since the Unix epoch. Nothing can be promised of the
/// clock's reading.
#[verifier::external_body]
pub(crate) fn now_timestamp_millis() -> i64 {
    chrono::Utc::now().timestamp_millis()
}

/// Relies on uuid's `Uuid::new_v4`: a freshly drawn random identifier.
/// Nothing can be promised of a random value.
#[verifier::external_body]
pub(crate) fn new_application_id() -> u128 {
    uuid::Uuid::new_v4().as_u128()
}

} // verus!

verus! {

/// Relies on colored's `Colorize::bright_black`: the text wrapped in
/// terminal colour codes, or handed back plain when colouring is off.
/// The result depends on the environment, so nothing more is promised.
#[verifier::external_body]
pub(crate) fn bright_black_string(s: &str) -> String {
    colored::Colorize::bright_black(s).to_string()
}

} // verus!
