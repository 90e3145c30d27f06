//! What the machine tells about itself: the clock, the host and the user.
//!
//! Nothing is promised of these answers; callers hand them on as they are.

use vstd::prelude::*;

verus! {

/// The current time in UTC as RFC 3339 text, from `chrono::Utc::now` and
/// `chrono::DateTime::to_rfc3339`. The text depends on the clock, so nothing is
/// stated of it.
#[verifier::external_body]
pub(crate) fn current_time_rfc3339() -> String {
    chrono::Utc::now().to_rfc3339()
}

/// The current time as whole seconds since the Unix epoch, from
/// `chrono::Utc::now` and `chrono::DateTime::timestamp`. The number depends on
/// the clock, so nothing is stated of it.
#[verifier::external_body]
pub(crate) fn current_unix_seconds() -> i64 {
    chrono::Utc::now().timestamp()
}

/// The host's name in lower case, from `whoami::hostname`. It depends on the
/// machine, so nothing is stated of it.
#[verifier::external_body]
#[allow(deprecated)]
pub(crate) fn host_name() -> String {
    whoami::hostname()
}

/// The name of the user who runs the process, from `whoami::username`. It
/// depends on the machine, so nothing is stated of it.
#[verifier::external_body]
pub(crate) fn user_name() -> String {
    whoami::username()
}

} // verus!
