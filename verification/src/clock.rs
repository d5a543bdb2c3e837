//! The wall clock, read as plain milliseconds.
//!
//! Debounce decisions take the current time as an argument; this is the one
//! place that reads it. Nothing is promised of the value: every caller
//! states what holds whatever time comes back.
use vstd::prelude::*;

verus! {

/// Relies on std::time::SystemTime::now: milliseconds since the Unix epoch.
/// The value depends on the environment, so nothing is promised of it.
#[verifier::external_body]
pub fn now_millis() -> u64 {
    match std::time::SystemTime::now().duration_since(std::time::UNIX_EPOCH) {
        Ok(d) => d.as_millis() as u64,
        Err(_) => 0,
    }
}

} // verus!
