//! The system clock, read through std. Nothing is claimed of the values it
//! gives: they depend on the machine's clock. The functions that decide on
//! time take the reading as an argument.
use vstd::prelude::*;

verus! {

/// `std::time::UNIX_EPOCH.elapsed()` in whole seconds (`Duration::as_secs`),
/// or `None` when the system clock is set before the Unix epoch. No claim is
/// made of the value.
#[verifier::external_body]
pub(crate) fn clock_secs() -> (res: Option<u64>) {
    match std::time::UNIX_EPOCH.elapsed() {
        Ok(d) => Some(d.as_secs()),
        Err(_) => None,
    }
}

/// `std::time::UNIX_EPOCH.elapsed()` in milliseconds (`Duration::as_millis`,
/// cut to 64 bits with `as u64`), or `None` when the system
/// clock is set before the Unix epoch. No claim is made of the value.
#[verifier::external_body]
pub(crate) fn clock_millis() -> (res: Option<u64>) {
    match std::time::UNIX_EPOCH.elapsed() {
        Ok(d) => Some(d.as_millis() as u64),
        Err(_) => None,
    }
}

} // verus!
