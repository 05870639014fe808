//! Wall-clock access.
//!
//! Time-dependent logic (grace periods, idle timeouts, handshake
//! timestamps) takes the current time as a plain millisecond count, so it
//! is verified for every clock value. This wrapper is the one place the
//! clock is actually read.

use vstd::prelude::*;

use std::time::{SystemTime, UNIX_EPOCH};

verus! {

/// Relies on SystemTime::now (read through duration_since(UNIX_EPOCH) and
/// as_millis): milliseconds since the Unix epoch, or 0 if the clock reads
/// before it. Nothing is promised of the value: the clock may move
/// arbitrarily between calls.
#[verifier::external_body]
pub fn now_millis() -> (r: u64)
{
    SystemTime::now()
        .duration_since(UNIX_EPOCH)
        .map(|d| d.as_millis() as u64)
        .unwrap_or(0)
}

} // verus!
