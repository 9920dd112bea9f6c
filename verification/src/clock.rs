//! The library's only sources of fresh identifiers and of the current time.
use chrono::Datelike;
use vstd::prelude::*;

use crate::models::Timestamp;

verus! {

/// A fresh identifier from `uuid::Uuid::now_v7`, as its 128-bit value
/// (`Uuid::as_u128`). It depends on the clock and on random bits, so nothing
/// is stated of its value.
#[verifier::external_body]
pub(crate) fn fresh_id() -> (id: u128) {
    uuid::Uuid::now_v7().as_u128()
}

/// The current time from `chrono::Utc::now`, as chrono holds it: its whole
/// seconds since the Unix epoch (`DateTime::timestamp`) and the nanoseconds
/// past that second (`DateTime::timestamp_subsec_nanos`). It depends on the
/// clock, so nothing is stated of its value. Like `Utc::now`, it panics on a
/// clock set before 1970.
#[verifier::external_body]
pub(crate) fn now_stamp() -> (t: Timestamp) {
    let at = chrono::Utc::now();
    Timestamp { secs: at.timestamp(), nanos: at.timestamp_subsec_nanos() }
}

/// Today's local date from `chrono::Local::now`, as its day count from the
/// common era (`Datelike::num_days_from_ce`, with 0001-01-01 as day 1). It
/// depends on the clock and the time zone, so nothing is stated of its value.
#[verifier::external_body]
pub(crate) fn today() -> (day: i32) {
    chrono::Local::now().date_naive().num_days_from_ce()
}

} // verus!
