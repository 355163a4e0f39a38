//! Wall-clock readings and timestamp text, delegated to chrono. The current
//! time is not a function of anything, so nothing is promised of it; the
//! conversions between epoch milliseconds and the two RFC text forms are
//! functions of their argument alone and carry their names.

use chrono::Datelike;
use chrono::TimeZone;
use vstd::prelude::*;

verus! {

/// Relies on `std::time::SystemTime::now`, its reading converted to whole
/// milliseconds since the epoch: nothing can be promised of the clock. A
/// clock set before the epoch reads as zero, so the call cannot abort.
#[verifier::external_body]
pub fn now_millis() -> (r: i64) {
    match std::time::SystemTime::now().duration_since(std::time::UNIX_EPOCH) {
        Ok(d) => i64::try_from(d.as_millis()).unwrap_or(i64::MAX),
        Err(_) => 0,
    }
}

/// Relies on `std::time::SystemTime::now`, its reading converted to whole
/// seconds since the epoch; a clock set before the epoch reads as zero.
#[verifier::external_body]
pub fn now_secs() -> (r: i64) {
    match std::time::SystemTime::now().duration_since(std::time::UNIX_EPOCH) {
        Ok(d) => i64::try_from(d.as_secs()).unwrap_or(i64::MAX),
        Err(_) => 0,
    }
}

/// The calendar year of the UTC instant `ms` milliseconds after the epoch:
/// a function of `ms` alone.
pub uninterp spec fn utc_year_of(ms: i64) -> i32;

/// Relies on `chrono::DateTime::from_timestamp_millis` and
/// `chrono::Datelike::year`: the UTC year of an instant, with the epoch's
/// year standing in for the few instants chrono cannot represent.
#[verifier::external_body]
pub fn utc_year_of_millis(ms: i64) -> (r: i32)
    ensures
        r == utc_year_of(ms),
{
    chrono::DateTime::<chrono::Utc>::from_timestamp_millis(ms).map(|dt| dt.year()).unwrap_or(1970)
}

/// The RFC 2822 text of the UTC instant `ms` milliseconds after the epoch,
/// for the instants chrono can represent: a function of `ms` alone.
pub uninterp spec fn rfc2822_text_of(ms: i64) -> Option<Seq<char>>;

/// Relies on `chrono::DateTime::to_rfc2822`,
/// `chrono::DateTime::from_timestamp_millis` and `chrono::Datelike::year`:
/// formats the UTC instant, or `None` when the instant is outside chrono's
/// representable range or its year is outside 0-9999, which the RFC 2822
/// form cannot carry (chrono's formatter would abort on such a year, so it
/// is never reached).
#[verifier::external_body]
pub fn rfc2822_of_millis(ms: i64) -> (r: Option<String>)
    ensures
        r is Some <==> rfc2822_text_of(ms) is Some,
        r matches Some(s) ==> rfc2822_text_of(ms) == Some(s@),
{
    let dt = chrono::DateTime::<chrono::Utc>::from_timestamp_millis(ms)?;
    if dt.year() < 0 || dt.year() > 9999 {
        return None;
    }
    Some(dt.to_rfc2822())
}

/// The RFC 3339 text of the UTC instant `ms` milliseconds after the epoch:
/// a function of `ms` alone.
pub uninterp spec fn rfc3339_text_of(ms: i64) -> Option<Seq<char>>;

/// Relies on `chrono::DateTime::to_rfc3339` and
/// `chrono::DateTime::from_timestamp_millis`: formats the UTC instant, or
/// `None` when the instant is outside chrono's representable range.
#[verifier::external_body]
pub fn rfc3339_of_millis(ms: i64) -> (r: Option<String>)
    ensures
        r is Some <==> rfc3339_text_of(ms) is Some,
        r matches Some(s) ==> rfc3339_text_of(ms) == Some(s@),
{
    chrono::DateTime::<chrono::Utc>::from_timestamp_millis(ms).map(|dt| dt.to_rfc3339())
}

/// The epoch milliseconds read from RFC 2822 text, or `None` where the text
/// does not parse: a function of the text alone.
pub uninterp spec fn rfc2822_millis_of(s: Seq<char>) -> Option<i64>;

/// Relies on `chrono::DateTime::parse_from_rfc2822` and
/// `chrono::DateTime::timestamp_millis`.
#[verifier::external_body]
pub fn parse_rfc2822_millis(s: &str) -> (r: Option<i64>)
    ensures
        r == rfc2822_millis_of(s@),
{
    chrono::DateTime::parse_from_rfc2822(s).ok().map(|dt| dt.timestamp_millis())
}

/// The epoch milliseconds read from RFC 3339 text, or `None` where the text
/// does not parse: a function of the text alone.
pub uninterp spec fn rfc3339_millis_of(s: Seq<char>) -> Option<i64>;

/// Relies on `chrono::DateTime::parse_from_rfc3339` and
/// `chrono::DateTime::timestamp_millis`.
#[verifier::external_body]
pub fn parse_rfc3339_millis(s: &str) -> (r: Option<i64>)
    ensures
        r == rfc3339_millis_of(s@),
{
    chrono::DateTime::parse_from_rfc3339(s).ok().map(|dt| dt.timestamp_millis())
}

/// Relies on `chrono::NaiveDateTime::parse_from_str` and
/// `chrono::TimeZone::from_local_datetime` for `chrono::Local`: reads
/// `"<date> <time>"` as `%Y-%m-%d %H:%M:%S` in the machine's local time
/// zone and yields its epoch seconds. The result depends on the machine's
/// time zone, so nothing more is promised; `None` where the text does not
/// parse or the local instant is absent or ambiguous.
#[verifier::external_body]
pub fn local_datetime_epoch_secs(date: &str, time: &str) -> (r: Option<i64>) {
    let text = format!("{} {}", date, time);
    let naive = chrono::NaiveDateTime::parse_from_str(text.as_str(), "%Y-%m-%d %H:%M:%S").ok()?;
    chrono::Local.from_local_datetime(&naive).single().map(|dt| dt.timestamp())
}

} // verus!
