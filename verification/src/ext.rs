//! The library's only ties to code it does not verify: the identifier
//! generator, the clock, and one std string primitive.

use vstd::prelude::*;

verus! {

/// Relies on uuid::Uuid::new_v4: a freshly generated version-4 identifier,
/// handed on as its 128-bit value. The value is random, so nothing is
/// promised of it; callers state what holds whatever comes back.
#[verifier::external_body]
pub(crate) fn random_id() -> u128 {
    uuid::Uuid::new_v4().as_u128()
}

/// Relies on chrono::Utc::now: the current wall-clock time, handed on as
/// milliseconds since the Unix epoch. The clock decides the value, so nothing
/// is promised of it.
#[verifier::external_body]
pub(crate) fn now_millis() -> i64 {
    chrono::Utc::now().timestamp_millis()
}

/// Relies on String::push: appends the given character to the end of the
/// string.
#[verifier::external_body]
pub(crate) fn push_char(s: &mut String, c: char)
    ensures
        final(s)@ == old(s)@.push(c),
{
    s.push(c);
}

} // verus!
