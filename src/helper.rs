//! Due dates of todos and their resolution to one absolute instant.
use vstd::prelude::*;
use vstd::string::*;
use std::fmt::Write;
use chrono::TimeZone;

verus! {

/// Days from 0001-01-01 (day 1) to 1970-01-01, as chrono counts days from the common era.
pub const UNIX_EPOCH_DAYS_FROM_CE: i64 = 719163;

/// Seconds in one day.
pub const SECONDS_PER_DAY: i64 = 86400;

/// A todo's due value: a bare date, or a date-time that is floating, in UTC, or
/// tied to a named time zone. Date-times are seconds since 1970-01-01T00:00:00
/// of their own wall clock.
#[derive(Clone, Debug, PartialEq, Eq)]
pub enum DueDate {
    /// A date without a time, as chrono's day number from the common era.
    Date { days_from_ce: i32 },
    /// A wall-clock date-time without a zone.
    Floating { seconds: i64 },
    /// An instant in UTC.
    Utc { seconds: i64 },
    /// A wall-clock date-time in the zone named `tzid`.
    WithTimezone { date_time: i64, tzid: String },
}

/// The instant, in seconds since the epoch, at which the wall-clock time
/// `local_seconds` first occurs in the zone named `tzid`; `None` where the
/// identifier names no zone, where the wall-clock time does not occur there,
/// or where `local_seconds` is outside chrono's range of date-times.
pub uninterp spec fn zone_instant(local_seconds: i64, tzid: Seq<char>) -> Option<i64>;

/// The calendar day of a due value, in days since 1970-01-01; the time of day
/// is dropped and no zone is applied.
pub open spec fn due_day(d: DueDate) -> int {
    match d {
        DueDate::Date { days_from_ce } => days_from_ce - UNIX_EPOCH_DAYS_FROM_CE,
        DueDate::Floating { seconds } => seconds as int / SECONDS_PER_DAY as int,
        DueDate::Utc { seconds } => seconds as int / SECONDS_PER_DAY as int,
        DueDate::WithTimezone { date_time, tzid } => date_time as int / SECONDS_PER_DAY as int,
    }
}

/// The instant, in seconds since the epoch, that a due value stands for: a
/// date is its midnight in UTC, a floating date-time is read as UTC, and a
/// zoned one is read in its zone, or as UTC where the zone is unknown.
pub open spec fn due_instant(d: DueDate) -> int {
    match d {
        DueDate::Date { days_from_ce } => (days_from_ce - UNIX_EPOCH_DAYS_FROM_CE) * SECONDS_PER_DAY,
        DueDate::Floating { seconds } => seconds as int,
        DueDate::Utc { seconds } => seconds as int,
        DueDate::WithTimezone { date_time, tzid } => match zone_instant(date_time, tzid@) {
            Some(t) => t as int,
            None => date_time as int,
        },
    }
}

/// Reads the wall-clock time `dt` (seconds since the epoch of that clock) in the
/// zone named `tzid` and returns the earliest instant at which it occurs.
/// Relies on chrono_tz's parse of a zone identifier and on chrono's
/// `and_local_timezone(..).earliest()`.
#[verifier::external_body]
pub fn dt_with_timezone(dt: i64, tzid: &str) -> (r: Option<i64>)
    ensures
        r == zone_instant(dt, tzid@),
{
    let tz: chrono_tz::Tz = tzid.parse().ok()?;
    let naive = chrono::DateTime::from_timestamp(dt, 0)?.naive_utc();
    naive.and_local_timezone(tz).earliest().map(|t| t.timestamp())
}

/// The calendar day of a due value, in days since 1970-01-01.
pub fn due_date_day(d: &DueDate) -> (r: i64)
    ensures
        r == due_day(*d),
{
    match d {
        DueDate::Date { days_from_ce } => *days_from_ce as i64 - UNIX_EPOCH_DAYS_FROM_CE,
        DueDate::Floating { seconds } => floor_day(*seconds),
        DueDate::Utc { seconds } => floor_day(*seconds),
        DueDate::WithTimezone { date_time, .. } => floor_day(*date_time),
    }
}

fn floor_day(seconds: i64) -> (r: i64)
    ensures
        r == seconds as int / SECONDS_PER_DAY as int,
{
    match seconds.checked_div_euclid(SECONDS_PER_DAY) {
        Some(q) => q,
        None => 0,
    }
}

/// Resolves a due value to one instant, in seconds since the epoch. A zone
/// identifier that names no zone is not an error: the date-time is read as UTC.
pub fn ical_datetime_to_chrono(dt: &DueDate) -> (r: i64)
    ensures
        r == due_instant(*dt),
{
    match dt {
        DueDate::Date { days_from_ce } => (*days_from_ce as i64 - UNIX_EPOCH_DAYS_FROM_CE)
            * SECONDS_PER_DAY,
        DueDate::Floating { seconds } => *seconds,
        DueDate::Utc { seconds } => *seconds,
        DueDate::WithTimezone { date_time, tzid } => match dt_with_timezone(*date_time, tzid.as_str()) {
            Some(t) => t,
            None => *date_time,
        },
    }
}

/// A zoned due date whose identifier names no zone resolves to its wall-clock
/// time read as UTC.
pub proof fn lemma_unknown_zone_reads_as_utc(date_time: i64, tzid: String)
    requires
        zone_instant(date_time, tzid@) is None,
    ensures
        due_instant(DueDate::WithTimezone { date_time, tzid }) == date_time,
{
}

/// The text that chrono writes for the date with day number `days_from_ce`
/// under pattern `fmt`; `None` where the day is out of chrono's range or the
/// pattern holds a specifier that chrono rejects.
pub uninterp spec fn date_formatted(days_from_ce: i32, fmt: Seq<char>) -> Option<Seq<char>>;

/// The text that chrono writes for the wall-clock date-time `seconds` (seconds
/// since the epoch of that clock) under pattern `fmt`; `None` where it is out
/// of chrono's range or the pattern holds a specifier that chrono rejects.
pub uninterp spec fn naive_formatted(seconds: i64, fmt: Seq<char>) -> Option<Seq<char>>;

/// Relies on chrono's `NaiveDate::from_num_days_from_ce_opt` and `format`; a
/// formatting error is returned as `None`.
#[verifier::external_body]
fn format_date(days_from_ce: i32, fmt: &str) -> (r: Option<String>)
    ensures
        match r {
            Some(s) => date_formatted(days_from_ce, fmt@) == Some(s@),
            None => date_formatted(days_from_ce, fmt@) is None,
        },
{
    let mut out = String::new();
    match write!(out, "{}", chrono::NaiveDate::from_num_days_from_ce_opt(days_from_ce)?.format(fmt)) {
        Ok(()) => Some(out),
        Err(_) => None,
    }
}

/// Relies on chrono's `DateTime::from_timestamp`, `naive_utc` and `format`; a
/// formatting error is returned as `None`.
#[verifier::external_body]
fn format_naive(seconds: i64, fmt: &str) -> (r: Option<String>)
    ensures
        match r {
            Some(s) => naive_formatted(seconds, fmt@) == Some(s@),
            None => naive_formatted(seconds, fmt@) is None,
        },
{
    let mut out = String::new();
    match write!(out, "{}", chrono::DateTime::from_timestamp(seconds, 0)?.naive_utc().format(fmt)) {
        Ok(()) => Some(out),
        Err(_) => None,
    }
}

/// The text that chrono writes for the UTC instant `seconds` shown at the
/// fixed offset `offset` (seconds east of UTC) under pattern `fmt`; `None`
/// where the instant or offset is out of chrono's range or the pattern holds a
/// specifier that chrono rejects.
pub uninterp spec fn offset_formatted(seconds: i64, offset: i32, fmt: Seq<char>) -> Option<Seq<char>>;

/// Relies on chrono's `DateTime::from_timestamp`, `FixedOffset::east_opt`,
/// `with_timezone` and `format`; a formatting error is returned as `None`.
#[verifier::external_body]
fn format_with_offset(seconds: i64, offset: i32, fmt: &str) -> (r: Option<String>)
    ensures
        match r {
            Some(s) => offset_formatted(seconds, offset, fmt@) == Some(s@),
            None => offset_formatted(seconds, offset, fmt@) is None,
        },
{
    let mut out = String::new();
    let zone = chrono::FixedOffset::east_opt(offset)?;
    match write!(out, "{}", chrono::DateTime::from_timestamp(seconds, 0)?.with_timezone(&zone).format(fmt)) {
        Ok(()) => Some(out),
        Err(_) => None,
    }
}

/// Relies on chrono's `Local` time zone: its offset from UTC, in seconds, at
/// the UTC instant `seconds`. It depends on the machine, so nothing is stated.
#[verifier::external_body]
fn local_offset(seconds: i64) -> Option<i32> {
    let utc = chrono::DateTime::from_timestamp(seconds, 0)?.naive_utc();
    Some(chrono::Local.offset_from_utc_datetime(&utc).local_minus_utc())
}

/// The text, or nothing.
pub open spec fn or_empty_text(s: Option<Seq<char>>) -> Seq<char> {
    match s {
        Some(t) => t,
        None => Seq::empty(),
    }
}

/// The display text of a due value, where the local time zone is `offset`
/// seconds east of UTC at the instant shown: a date with `date_fmt`, a
/// floating date-time with `dt_fmt`, UTC and zoned date-times with `dt_fmt` at
/// that offset; a zoned date-time whose zone is unknown is its wall-clock time,
/// a space and the zone identifier. What chrono cannot format is empty text.
pub open spec fn due_text(dt: DueDate, date_fmt: Seq<char>, dt_fmt: Seq<char>, offset: i32) -> Seq<char> {
    match dt {
        DueDate::Date { days_from_ce } => or_empty_text(date_formatted(days_from_ce, date_fmt)),
        DueDate::Floating { seconds } => or_empty_text(naive_formatted(seconds, dt_fmt)),
        DueDate::Utc { seconds } => or_empty_text(offset_formatted(seconds, offset, dt_fmt)),
        DueDate::WithTimezone { date_time, tzid } => match zone_instant(date_time, tzid@) {
            Some(t) => or_empty_text(offset_formatted(t, offset, dt_fmt)),
            None => or_empty_text(naive_formatted(date_time, dt_fmt)) + " "@ + tzid@,
        },
    }
}

fn or_empty(s: Option<String>) -> (r: String)
    ensures
        r@ == or_empty_text(match s {
            Some(t) => Some(t@),
            None => None,
        }),
{
    match s {
        Some(t) => t,
        None => String::new(),
    }
}

/// Formats a due value for display as `due_text` says, with the local time
/// zone given as its offset `local_offset` at the instant shown.
pub fn format_due(dt: &DueDate, date_fmt: &str, dt_fmt: &str, local_offset: i32) -> (r: String)
    ensures
        r@ == due_text(*dt, date_fmt@, dt_fmt@, local_offset),
{
    match dt {
        DueDate::Date { days_from_ce } => or_empty(format_date(*days_from_ce, date_fmt)),
        DueDate::Floating { seconds } => or_empty(format_naive(*seconds, dt_fmt)),
        DueDate::Utc { seconds } => or_empty(format_with_offset(*seconds, local_offset, dt_fmt)),
        DueDate::WithTimezone { date_time, tzid } => match dt_with_timezone(*date_time, tzid.as_str()) {
            Some(t) => or_empty(format_with_offset(t, local_offset, dt_fmt)),
            None => {
                let mut r = or_empty(format_naive(*date_time, dt_fmt));
                r.append(" ");
                r.append(tzid.as_str());
                proof {
                    reveal_strlit(" ");
                }
                r
            },
        },
    }
}

/// Formats a due value for display in the machine's time zone: as
/// `format_due` with the local offset at the instant shown, which only UTC and
/// resolved zoned date-times read. Where that offset cannot be had the text
/// is empty.
pub fn format_ical_datetime(dt: &DueDate, date_fmt: &str, dt_fmt: &str) -> (r: String)
    ensures
        r@ == Seq::<char>::empty() || exists|offset: i32| r@ == due_text(*dt, date_fmt@, dt_fmt@, offset),
        dt matches DueDate::Date { .. } ==> r@ == due_text(*dt, date_fmt@, dt_fmt@, 0),
        dt matches DueDate::Floating { .. } ==> r@ == due_text(*dt, date_fmt@, dt_fmt@, 0),
        dt matches DueDate::WithTimezone { date_time, tzid } ==> (zone_instant(*date_time, tzid@) is None
            ==> r@ == due_text(*dt, date_fmt@, dt_fmt@, 0)),
{
    let shown: Option<i64> = match dt {
        DueDate::Utc { seconds } => Some(*seconds),
        DueDate::WithTimezone { date_time, tzid } => dt_with_timezone(*date_time, tzid.as_str()),
        _ => None,
    };
    match shown {
        Some(t) => match local_offset(t) {
            Some(offset) => format_due(dt, date_fmt, dt_fmt, offset),
            None => String::new(),
        },
        None => format_due(dt, date_fmt, dt_fmt, 0),
    }
}

} // verus!
