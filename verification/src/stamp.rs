//! Timestamps and fresh identifiers: the two places the control
//! plane reads the outside world that are not I/O.

use vstd::prelude::*;

verus! {

/// Relies on chrono's `Utc::now` and `DateTime::to_rfc3339`: the
/// current time as RFC 3339 text.  The value depends on the clock, so
/// nothing is promised of it; callers state what holds for every
/// timestamp.
#[verifier::external_body]
pub(crate) fn now_rfc3339() -> (ts: String) {
    chrono::Utc::now().to_rfc3339()
}

/// Relies on uuid's `Uuid::new_v4` and its `Display` impl: a random
/// version-4 UUID in the hyphenated form, which is 36 characters.
/// The value is random; callers state what holds for every identifier.
#[verifier::external_body]
pub(crate) fn new_uuid() -> (id: String)
    ensures
        id@.len() == 36,
{
    uuid::Uuid::new_v4().to_string()
}

} // verus!
