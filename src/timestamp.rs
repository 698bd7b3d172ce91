//! Payment timestamps: the transaction date and time texts of a receipt are
//! joined, parsed as a wall-clock date-time and placed in the reference time
//! zone (Europe/Copenhagen).
use vstd::prelude::*;

use chrono::{Datelike, Offset, TimeZone, Timelike};

verus! {

/// A wall-clock date and time with no time zone attached.
///
/// `nanosecond` reaches past one second only for a leap second, which is
/// written as second 59.
#[derive(Debug, Clone, Copy, PartialEq, Eq, Structural)]
pub struct LocalDateTime {
    pub year: i32,
    pub month: u32,
    pub day: u32,
    pub hour: u32,
    pub minute: u32,
    pub second: u32,
    pub nanosecond: u32,
}

/// A wall-clock date-time in the reference zone, with the zone's offset from
/// UTC at that moment. Together they name one instant.
#[derive(Debug, Clone, Copy, PartialEq, Eq, Structural)]
pub struct PaidAt {
    pub local: LocalDateTime,
    pub utc_offset_seconds: i32,
}

/// Why a payment timestamp could not be built.
#[derive(Debug, Clone, Copy, PartialEq, Eq, Structural)]
pub enum TimestampError {
    /// The joined date and time text is not a date-time of the expected form.
    InvalidTimestamp,
    /// The wall-clock time falls in a daylight-saving gap or overlap.
    AmbiguousLocalTime,
}

/// The form in which the joined date and time text is read.
pub const DATETIME_FORMAT: &'static str = "%Y-%m-%d %H:%M:%S";

pub open spec fn datetime_format() -> Seq<char> {
    seq!['%', 'Y', '-', '%', 'm', '-', '%', 'd', ' ', '%', 'H', ':', '%', 'M', ':', '%', 'S']
}

pub open spec fn is_leap_year(y: int) -> bool {
    (y % 4 == 0 && y % 100 != 0) || y % 400 == 0
}

pub open spec fn days_in_month(y: int, m: int) -> int {
    if m == 2 {
        if is_leap_year(y) { 29 } else { 28 }
    } else if m == 4 || m == 6 || m == 9 || m == 11 {
        30
    } else {
        31
    }
}

/// A calendar date and a time of day that exist, in the year range that the
/// date-time library represents.
pub open spec fn valid_local(d: LocalDateTime) -> bool {
    &&& -262143 <= d.year <= 262142
    &&& 1 <= d.month <= 12
    &&& 1 <= d.day <= days_in_month(d.year as int, d.month as int)
    &&& d.hour < 24
    &&& d.minute < 60
    &&& d.second < 60
    &&& (d.nanosecond < 1_000_000_000 || (d.second == 59 && d.nanosecond < 2_000_000_000))
}

pub open spec fn is_digit(c: char) -> bool {
    '0' <= c && c <= '9'
}

pub open spec fn digit_value(c: char) -> int {
    c as int - '0' as int
}

pub open spec fn two_digits(s: Seq<char>, i: int) -> int {
    digit_value(s[i]) * 10 + digit_value(s[i + 1])
}

/// Text of exactly the form `YYYY-MM-DD HH:MM:SS`, every field in digits.
pub open spec fn is_plain_datetime_text(s: Seq<char>) -> bool {
    &&& s.len() == 19
    &&& forall|i: int|
        0 <= i < 19 && i != 4 && i != 7 && i != 10 && i != 13 && i != 16 ==> is_digit(
            #[trigger] s[i],
        )
    &&& s[4] == '-' && s[7] == '-' && s[10] == ' ' && s[13] == ':' && s[16] == ':'
}

/// The date-time that text of the form `YYYY-MM-DD HH:MM:SS` writes.
pub open spec fn plain_datetime_value(s: Seq<char>) -> LocalDateTime {
    LocalDateTime {
        year: (two_digits(s, 0) * 100 + two_digits(s, 2)) as i32,
        month: two_digits(s, 5) as u32,
        day: two_digits(s, 8) as u32,
        hour: two_digits(s, 11) as u32,
        minute: two_digits(s, 14) as u32,
        second: two_digits(s, 17) as u32,
        nanosecond: 0,
    }
}

/// What the date-time library's parser makes of a text in a format.
pub uninterp spec fn parsed_local(text: Seq<char>, format: Seq<char>) -> Option<LocalDateTime>;

/// The offset from UTC, in seconds, of the reference zone at a wall-clock
/// time; none where that time is skipped or repeated by a clock change.
pub uninterp spec fn reference_zone_offset(local: LocalDateTime) -> Option<i32>;

/// Relies on `chrono::NaiveDateTime::parse_from_str`: its result is a date-time
/// that exists, and text that writes every field of the format in full digits
/// parses to the values written.
#[verifier::external_body]
fn parse_local(text: &str, format: &str) -> (r: Option<LocalDateTime>)
    ensures
        r == parsed_local(text@, format@),
        r is Some ==> valid_local(r->0),
        format@ == datetime_format() && is_plain_datetime_text(text@) && valid_local(
            plain_datetime_value(text@),
        ) ==> r == Some(plain_datetime_value(text@)),
{
    chrono::NaiveDateTime::parse_from_str(text, format).ok().map(|t| LocalDateTime {
        year: t.year(),
        month: t.month(),
        day: t.day(),
        hour: t.hour(),
        minute: t.minute(),
        second: t.second(),
        nanosecond: t.nanosecond(),
    })
}

/// Relies on `chrono_tz::Europe::Copenhagen` resolving a wall-clock time
/// (`TimeZone::from_local_datetime`): one offset where the time maps to a
/// single instant, none otherwise.
#[verifier::external_body]
fn offset_in_reference_zone(local: LocalDateTime) -> (r: Option<i32>)
    requires
        valid_local(local),
    ensures
        r == reference_zone_offset(local),
{
    let date = chrono::NaiveDate::from_ymd_opt(local.year, local.month, local.day).unwrap();
    let time = chrono::NaiveTime::from_hms_nano_opt(
        local.hour,
        local.minute,
        local.second,
        local.nanosecond,
    ).unwrap();
    match chrono_tz::Europe::Copenhagen.from_local_datetime(&date.and_time(time)) {
        chrono::LocalResult::Single(t) => Some(t.offset().fix().local_minus_utc()),
        _ => None,
    }
}

/// The date text, one space, and the time text.
pub open spec fn joined_datetime_text(date: Seq<char>, time: Seq<char>) -> Seq<char> {
    date + seq![' '] + time
}

/// The payment timestamp that a date text and a time text give.
pub open spec fn paid_at_of(date: Seq<char>, time: Seq<char>) -> Result<PaidAt, TimestampError> {
    match parsed_local(joined_datetime_text(date, time), datetime_format()) {
        None => Err(TimestampError::InvalidTimestamp),
        Some(local) => match reference_zone_offset(local) {
            None => Err(TimestampError::AmbiguousLocalTime),
            Some(off) => Ok(PaidAt { local, utc_offset_seconds: off }),
        },
    }
}

/// Joins the date and time texts with one space, parses the result as
/// `YYYY-MM-DD HH:MM:SS` and places it in the reference time zone.
pub fn parse_paid_at(date: &str, time: &str) -> (r: Result<PaidAt, TimestampError>)
    ensures
        r == paid_at_of(date@, time@),
        // a date and a time written in full digits, naming a moment that
        // exists, parse to that very wall-clock time; the result is then
        // that time with the zone's offset, or ambiguous where the zone
        // gives none
        is_plain_datetime_text(joined_datetime_text(date@, time@)) && valid_local(
            plain_datetime_value(joined_datetime_text(date@, time@)),
        ) ==> parsed_local(joined_datetime_text(date@, time@), datetime_format()) == Some(
            plain_datetime_value(joined_datetime_text(date@, time@)),
        ),
{
    let mut text = String::from_str(date);
    text.append(" ");
    text.append(time);
    proof {
        reveal_strlit(" ");
        reveal_strlit("%Y-%m-%d %H:%M:%S");
        assert(text@ =~= joined_datetime_text(date@, time@));
        assert(DATETIME_FORMAT@ =~= datetime_format());
    }
    match parse_local(text.as_str(), DATETIME_FORMAT) {
        None => Err(TimestampError::InvalidTimestamp),
        Some(local) => match offset_in_reference_zone(local) {
            None => Err(TimestampError::AmbiguousLocalTime),
            Some(off) => Ok(PaidAt { local, utc_offset_seconds: off }),
        },
    }
}

} // verus!
