//! The moment at which a ledger record was made.

use vstd::prelude::*;

verus! {

/// A point in time: whole seconds since 1970-01-01 00:00:00 UTC and the
/// nanoseconds past that second.
#[derive(Clone, Copy, Debug, PartialEq, Eq, Structural)]
pub struct Timestamp {
    pub seconds: i64,
    pub nanos: u32,
}

/// Reads the clock with `chrono::Utc::now` and takes the result apart with
/// `DateTime::timestamp` and `DateTime::timestamp_subsec_nanos`. Nothing is
/// claimed of the value: it differs from call to call. chrono stops the
/// program if the system clock stands before 1970.
#[verifier::external_body]
pub(crate) fn current_time() -> (now: Timestamp) {
    let now = chrono::Utc::now();
    Timestamp { seconds: now.timestamp(), nanos: now.timestamp_subsec_nanos() }
}

/// The text that chrono gives for a point in time in the form
/// `YYYY-MM-DD HH:MM:SS UTC`, or `None` where chrono has no date for it.
pub uninterp spec fn utc_text(seconds: i64, nanos: u32) -> Option<Seq<char>>;

/// Builds the date with `chrono::DateTime::from_timestamp` and writes it
/// with `DateTime::format` under the pattern `%Y-%m-%d %H:%M:%S UTC`. The
/// text depends on the two numbers alone; it is `None` exactly where
/// `from_timestamp` returns `None`, that is for seconds out of chrono's range
/// or nanoseconds that it does not accept.
#[verifier::external_body]
pub(crate) fn format_timestamp(at: Timestamp) -> (text: Option<String>)
    ensures
        match text {
            Some(t) => utc_text(at.seconds, at.nanos) == Some(t@),
            None => utc_text(at.seconds, at.nanos) is None,
        },
{
    match chrono::DateTime::from_timestamp(at.seconds, at.nanos) {
        Some(date) => Some(date.format("%Y-%m-%d %H:%M:%S UTC").to_string()),
        None => None,
    }
}

} // verus!
