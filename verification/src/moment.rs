//! Moments as texts write them.

use vstd::prelude::*;

use crate::text::maybe_text;

verus! {

/// The moment, in milliseconds since 1970, that a text in RFC 3339 form names.
pub uninterp spec fn rfc3339_ms(text: Seq<char>) -> Option<i64>;

/// `chrono::DateTime::parse_from_rfc3339` with `timestamp_millis`: the moment
/// that the text names, in milliseconds since 1970, where it has that form.
#[verifier::external_body]
pub(crate) fn parse_rfc3339(text: &str) -> (out: Option<i64>)
    ensures
        out == rfc3339_ms(text@),
{
    chrono::DateTime::parse_from_rfc3339(text).ok().map(|moment| moment.timestamp_millis())
}

/// The calendar date, in its own offset, that a text in RFC 3339 form names.
pub uninterp spec fn rfc3339_date(text: Seq<char>) -> Option<Seq<char>>;

/// `chrono::DateTime::format` with `%Y-%m-%d` on what
/// `chrono::DateTime::parse_from_rfc3339` gives: the date that the text names
/// in its own offset. There is one exactly where the text has that form.
#[verifier::external_body]
pub(crate) fn parse_rfc3339_date(text: &str) -> (out: Option<String>)
    ensures
        maybe_text(out) == rfc3339_date(text@),
        out is Some == rfc3339_ms(text@) is Some,
{
    chrono::DateTime::parse_from_rfc3339(text).ok().map(|moment| moment.format("%Y-%m-%d").to_string())
}

/// The year and the month of a moment, given in milliseconds since 1970, in UTC.
pub uninterp spec fn utc_month_of(moment_ms: i64) -> Option<(i32, u32)>;

/// `chrono::DateTime::from_timestamp_millis` with `year` and `month`: the year
/// and the month of the moment in UTC, where the moment is one that chrono can
/// hold. Months count from one to twelve. Years lie between -262143 and
/// 262142, the first and the last that chrono holds.
#[verifier::external_body]
fn utc_month(moment_ms: i64) -> (out: Option<(i32, u32)>)
    ensures
        out == utc_month_of(moment_ms),
        out matches Some((year, month)) ==> -262143 <= year <= 262142 && 1 <= month <= 12,
{
    chrono::DateTime::from_timestamp_millis(moment_ms).map(
        |moment| (chrono::Datelike::year(&moment), chrono::Datelike::month(&moment)),
    )
}

/// The moment, in milliseconds since 1970, at which a month begins in UTC.
pub uninterp spec fn month_start_ms(year: i32, month: u32) -> Option<i64>;

/// `chrono::Utc.with_ymd_and_hms` with `timestamp_millis`, on the first second
/// of the month: the moment at which the month begins, where chrono can hold it.
#[verifier::external_body]
fn utc_month_start(year: i32, month: u32) -> (out: Option<i64>)
    ensures
        out == month_start_ms(year, month),
{
    chrono::TimeZone::with_ymd_and_hms(&chrono::Utc, year, month, 1, 0, 0, 0).single().map(
        |moment| moment.timestamp_millis(),
    )
}

/// The month after a month.
pub open spec fn following_month(year: int, month: int) -> (int, int) {
    if month == 12 {
        (year + 1, 1)
    } else {
        (year, month + 1)
    }
}

/// The beginning of the month after the one of a moment; zero where there is
/// none.
pub open spec fn next_month_start(moment_ms: i64) -> i64 {
    match utc_month_of(moment_ms) {
        Some((year, month)) => {
            let (year, month) = following_month(year as int, month as int);
            match month_start_ms(year as i32, month as u32) {
                Some(start) => start,
                None => 0,
            }
        },
        None => 0,
    }
}

pub fn next_utc_month_start_ms(now_ms: i64) -> (out: i64)
    ensures
        out == next_month_start(now_ms),
{
    match utc_month(now_ms) {
        Some((year, month)) => {
            let (year, month): (i32, u32) = if month == 12 {
                (year + 1, 1)
            } else {
                (year, month + 1)
            };
            match utc_month_start(year, month) {
                Some(start) => start,
                None => 0,
            }
        },
        None => 0,
    }
}

/// The moment, in milliseconds since 1970, at which a date begins in UTC.
pub uninterp spec fn calendar_date_ms(text: Seq<char>) -> Option<i64>;

/// `chrono::NaiveDate::parse_from_str` with `%Y-%m-%d`, then `and_hms_opt` at
/// midnight, `and_utc` and `timestamp_millis`: the moment at which the date
/// begins in UTC, where the text names a date so.
#[verifier::external_body]
pub(crate) fn parse_calendar_date(text: &str) -> (out: Option<i64>)
    ensures
        out == calendar_date_ms(text@),
{
    chrono::NaiveDate::parse_from_str(text, "%Y-%m-%d").ok().and_then(
        |date| date.and_hms_opt(0, 0, 0),
    ).map(|moment| moment.and_utc().timestamp_millis())
}

/// The calendar date of a moment, given in milliseconds since 1970, in UTC.
pub uninterp spec fn utc_date_of(moment_ms: i64) -> Option<Seq<char>>;

/// `chrono::DateTime::from_timestamp_millis` with `date_naive` and its
/// `to_string`: the date of the moment in UTC, where the moment is one that
/// chrono can hold.
#[verifier::external_body]
pub(crate) fn utc_date(moment_ms: i64) -> (out: Option<String>)
    ensures
        maybe_text(out) == utc_date_of(moment_ms),
{
    chrono::DateTime::from_timestamp_millis(moment_ms).map(|moment| moment.date_naive().to_string())
}

/// The next month is one month later: counted in months from year zero it is one
/// more, across the end of a year too.
pub proof fn law_next_month_is_one_later(
    moment_ms: i64,
    year: i32,
    month: u32,
    next_year: i32,
    next_month: u32,
)
    requires
        utc_month_of(moment_ms) == Some((year, month)),
        1 <= month <= 12,
        1 <= next_month <= 12,
        12 * next_year + next_month == 12 * year + month + 1,
    ensures
        month_start_ms(next_year, next_month) matches Some(start) ==> next_month_start(moment_ms)
            == start,
        month_start_ms(next_year, next_month) is None ==> next_month_start(moment_ms) == 0,
{
}

} // verus!
