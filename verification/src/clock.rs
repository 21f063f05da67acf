//! The time of day, as the library has it from outside.

use vstd::prelude::*;

verus! {

/// `chrono::Utc::now`, then `DateTime::timestamp_millis`: the time at which
/// it is called, in milliseconds since the epoch. Nothing is claimed of it.
#[verifier::external_body]
pub(crate) fn now() -> (time: i64) {
    chrono::Utc::now().timestamp_millis()
}

/// `chrono::DateTime::from_timestamp_millis`, `DateTime::with_timezone` to
/// `chrono::Local`, and `DateTime::format` with day, month, year and time
/// of day: a point in time as this machine's clock on the wall shows it, or
/// nothing where chrono cannot hold it. Nothing is claimed of the text: it
/// depends on the time zone of the machine.
#[verifier::external_body]
pub(crate) fn local_time_text(time: i64) -> (text: Option<String>) {
    let utc = chrono::DateTime::from_timestamp_millis(time)?;
    Some(utc.with_timezone(&chrono::Local).format("%e %b %Y %T").to_string())
}

} // verus!
