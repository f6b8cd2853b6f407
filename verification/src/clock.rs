//! The one place the library reads the host clock. Every consumer either
//! takes a timestamp as an argument or goes through these wrappers, so all
//! time-dependent logic is verified for every clock value. Both wrappers
//! are total: a host clock before the Unix epoch yields the stated default
//! instead of unwinding.

use vstd::prelude::*;

verus! {

/// Relies on std::time::SystemTime::now and SystemTime::duration_since:
/// whole seconds since the Unix epoch; a clock before the epoch yields 0.
/// Nothing else is promised: the clock may say anything.
#[verifier::external_body]
pub(crate) fn now_unix_seconds() -> i64 {
    match std::time::SystemTime::now().duration_since(std::time::UNIX_EPOCH) {
        Ok(d) => d.as_secs() as i64,
        Err(_) => 0,
    }
}

/// Relies on std::time::SystemTime::now and SystemTime::duration_since:
/// nanoseconds since the Unix epoch, when the clock is at or past it and
/// the count fits in 64 bits; otherwise None. Nothing else is promised.
#[verifier::external_body]
pub(crate) fn now_unix_nanos() -> Option<u64> {
    match std::time::SystemTime::now().duration_since(std::time::UNIX_EPOCH) {
        Ok(d) => u64::try_from(d.as_nanos()).ok(),
        Err(_) => None,
    }
}

} // verus!
