//! The two clock reads the library needs: the RFC 3339 instant stamped
//! onto events and the local timestamp written into durable log lines.
//! A clock read depends on the moment it runs, so nothing is assumed of
//! either result; every function that consumes a timestamp takes it as a
//! plain value and is verified for all of them.

use vstd::prelude::*;

verus! {

/// Relies on chrono's `Utc::now` and `DateTime::to_rfc3339` for the
/// current instant in RFC 3339 form.  The result depends on the clock:
/// nothing is assumed of it.
///
/// chrono's `Utc::now` panics on a machine whose clock reads before the
/// Unix epoch; this wrapper inherits that.  The condition is a machine
/// state, not an input, so no precondition can exclude it.
#[verifier::external_body]
pub(crate) fn now_rfc3339() -> String {
    chrono::Utc::now().to_rfc3339()
}

/// Relies on chrono's `Local::now` and `DateTime::format` for the local
/// wall-clock timestamp of durable log lines.  The result depends on the
/// clock and the machine's time zone: nothing is assumed of it.
///
/// `Local::now` goes through `Utc::now` and shares its panic on a clock
/// set before the Unix epoch.
#[verifier::external_body]
pub(crate) fn now_local_stamp() -> String {
    chrono::Local::now().format("%Y-%m-%d %H:%M:%S%.3f").to_string()
}

} // verus!
