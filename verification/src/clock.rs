//! The wall clock: seconds since the Unix epoch and the calendar year.

use vstd::prelude::*;

verus! {

/// The calendar year, in UTC, that contains the instant `secs` seconds after
/// the Unix epoch; `None` for an instant outside the range of the calendar.
pub uninterp spec fn utc_year_of(secs: i64) -> Option<i32>;

/// The instant `secs` seconds after the Unix epoch written as an RFC 3339
/// date and time in UTC; `None` for an instant outside the range of the
/// calendar.
pub uninterp spec fn utc_rfc3339_of(secs: i64) -> Option<Seq<char>>;

/// The year assumed when the calendar cannot place the current instant.
pub const FALLBACK_YEAR: i32 = 2024;

/// The calendar year to use for the instant `secs` seconds after the epoch.
pub open spec fn year_at(secs: i64) -> i32 {
    match utc_year_of(secs) {
        Some(year) => year,
        None => FALLBACK_YEAR,
    }
}

/// `std::time::SystemTime::elapsed` on `UNIX_EPOCH`: the time that has passed
/// since the epoch by the system clock, or `None` where the clock stands
/// before the epoch. Nothing is claimed of the reading.
#[verifier::external_body]
fn elapsed_since_epoch() -> (elapsed: Option<std::time::Duration>) {
    std::time::UNIX_EPOCH.elapsed().ok()
}

/// `std::time::Duration::as_secs`: the whole seconds of a duration. The
/// duration is opaque here, so nothing is claimed of the number.
#[verifier::external_body]
fn whole_seconds(elapsed: &std::time::Duration) -> (secs: u64) {
    elapsed.as_secs()
}

/// `chrono::DateTime::from_timestamp` followed by `chrono::Datelike::year`:
/// the UTC calendar year of a Unix timestamp, which is a function of the
/// timestamp alone; `None` where chrono cannot represent the instant.
#[verifier::external_body]
fn utc_year(secs: i64) -> (year: Option<i32>)
    ensures
        year == utc_year_of(secs),
{
    match chrono::DateTime::from_timestamp(secs, 0) {
        Some(instant) => Some(chrono::Datelike::year(&instant)),
        None => None,
    }
}

/// `chrono::DateTime::from_timestamp` followed by
/// `chrono::DateTime::to_rfc3339`: the RFC 3339 text of a Unix timestamp in
/// UTC, which is a function of the timestamp alone; `None` where chrono
/// cannot represent the instant.
#[verifier::external_body]
fn utc_rfc3339(secs: i64) -> (text: Option<String>)
    ensures
        match text {
            Some(written) => utc_rfc3339_of(secs) == Some(written@),
            None => utc_rfc3339_of(secs) is None,
        },
{
    match chrono::DateTime::from_timestamp(secs, 0) {
        Some(instant) => Some(instant.to_rfc3339()),
        None => None,
    }
}

/// A count of seconds as a timestamp; counts beyond the range of a timestamp
/// become the largest one.
pub fn timestamp_of(secs: u64) -> (timestamp: i64)
    ensures
        timestamp == if secs <= i64::MAX { secs as int } else { i64::MAX as int },
{
    if secs > i64::MAX as u64 {
        i64::MAX
    } else {
        secs as i64
    }
}

/// The current Unix timestamp in seconds; zero where the system clock stands
/// before the epoch.
pub fn current_timestamp() -> (now: i64)
    ensures
        now >= 0,
{
    match elapsed_since_epoch() {
        Some(elapsed) => timestamp_of(whole_seconds(&elapsed)),
        None => 0,
    }
}

/// The calendar year, in UTC, of a Unix timestamp, with [`FALLBACK_YEAR`]
/// for a timestamp the calendar cannot place.
pub fn year_of_timestamp(secs: i64) -> (year: i32)
    ensures
        year == year_at(secs),
{
    match utc_year(secs) {
        Some(year) => year,
        None => FALLBACK_YEAR,
    }
}

/// The current calendar year in UTC.
pub fn current_year() -> (year: i32)
    ensures
        exists|now: i64| now >= 0 && year == #[trigger] year_at(now),
{
    let now = current_timestamp();
    year_of_timestamp(now)
}

/// The text of a timestamp: its RFC 3339 form, or nothing where the
/// calendar cannot place it.
pub open spec fn timestamp_text_of(secs: i64) -> Seq<char> {
    match utc_rfc3339_of(secs) {
        Some(written) => written,
        None => Seq::empty(),
    }
}

/// Writes a Unix timestamp as an RFC 3339 date and time in UTC; the text is
/// empty for a timestamp the calendar cannot place.
pub fn timestamp_text(secs: i64) -> (text: String)
    ensures
        text@ == timestamp_text_of(secs),
{
    match utc_rfc3339(secs) {
        Some(written) => written,
        None => String::new(),
    }
}

} // verus!
