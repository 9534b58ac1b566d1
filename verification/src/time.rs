//! Moments as the user reads them.

use vstd::prelude::*;

use crate::api::Timestamp;
use crate::text::opt_text;

verus! {

/// The first second that has a date.
pub const EARLIEST_SECS: i64 = -8334601228800;

/// The last second that has a date.
pub const LATEST_SECS: i64 = 8210266876799;

/// The date and time in UTC of a number of seconds since the start of 1970, written in `format`.
pub uninterp spec fn utc_text(secs: i64, format: Seq<char>) -> Option<Seq<char>>;

/// Calls `chrono::DateTime::<chrono::Utc>::from_timestamp` and writes the result out through
/// `DateTime::format`. Taken on trust: the text depends on the number and the format alone, there
/// is one exactly for the seconds of the years -262143 to 262142, and seconds are counted from
/// the start of 1970. Which text the other numbers have is not stated. The format must be this
/// one, since another one may not be a format at all.
#[verifier::external_body]
fn format_utc(secs: i64, format: &str) -> (r: Option<String>)
    requires
        format@ == "%Y-%m-%d %H:%M:%S UTC"@,
    ensures
        opt_text(r) == utc_text(secs, format@),
        r is Some <==> EARLIEST_SECS <= secs <= LATEST_SECS,
        secs == 0 ==> r is Some && r->0@ == "1970-01-01 00:00:00 UTC"@,
{
    match chrono::DateTime::<chrono::Utc>::from_timestamp(secs, 0) {
        Some(time) => Some(time.format(format).to_string()),
        None => None,
    }
}

/// A formatted time, or the number as it came where it has no date.
pub open spec fn time_or_number(time: Option<Seq<char>>, number: Seq<char>) -> Seq<char> {
    match time {
        Some(time) => time,
        None => number,
    }
}

/// A timestamp as the user reads it.
pub open spec fn timestamp_text(timestamp: Timestamp) -> Seq<char> {
    time_or_number(
        utc_text(timestamp.secs, "%Y-%m-%d %H:%M:%S UTC"@),
        timestamp.text@,
    )
}

/// A formatted time, or the number as it came where it has no date.
pub fn show_time(time: Option<String>, number: &str) -> (r: String)
    ensures
        r@ == time_or_number(opt_text(time), number@),
{
    match time {
        Some(time) => time,
        None => number.to_string(),
    }
}

/// Writes a timestamp as a date and a time of day in UTC.
pub fn format_timestamp(timestamp: &Timestamp) -> (r: String)
    ensures
        r@ == timestamp_text(*timestamp),
        !(EARLIEST_SECS <= timestamp.secs <= LATEST_SECS) ==> r@ == timestamp.text@,
        EARLIEST_SECS <= timestamp.secs <= LATEST_SECS ==> Some(r@) == utc_text(
            timestamp.secs,
            "%Y-%m-%d %H:%M:%S UTC"@,
        ),
        timestamp.secs == 0 ==> r@ == "1970-01-01 00:00:00 UTC"@,
{
    show_time(format_utc(timestamp.secs, "%Y-%m-%d %H:%M:%S UTC"), timestamp.text.as_str())
}

/// A moment is shown as its date and time where it has one, and as the number that came where it
/// has none.
pub proof fn moments_are_dates_or_numbers(timestamp: Timestamp, time: Seq<char>, number: Seq<char>)
    ensures
        time_or_number(Some(time), number) == time,
        time_or_number(None, number) == number,
        utc_text(timestamp.secs, "%Y-%m-%d %H:%M:%S UTC"@) is Some ==> Some(
            timestamp_text(timestamp),
        ) == utc_text(timestamp.secs, "%Y-%m-%d %H:%M:%S UTC"@),
        utc_text(timestamp.secs, "%Y-%m-%d %H:%M:%S UTC"@) is None ==> timestamp_text(timestamp)
            == timestamp.text@,
{
}

} // verus!
