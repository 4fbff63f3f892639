//! Dates and times in forms and templates: HTML `datetime-local` inputs in
//! a browser's time zone, and dates and durations as the pages show them.

use crate::text::{append_str, decimal, push_decimal, string_from_chars};
use chrono::{Datelike, TimeZone, Timelike};
use vstd::prelude::*;

verus! {

/// A calendar date and a time of day, as chrono's `Datelike` and
/// `Timelike` accessors give them (nanoseconds above 999,999,999 mark a
/// leap second).
#[derive(Debug, Clone, Copy, PartialEq, Eq, Structural)]
pub struct DateTimeFields {
    pub year: i32,
    pub month: u32,
    pub day: u32,
    pub hour: u32,
    pub minute: u32,
    pub second: u32,
    pub nanosecond: u32,
}

/// A leap year of the proleptic Gregorian calendar.
pub open spec fn is_leap_year(year: int) -> bool {
    year % 4 == 0 && (year % 100 != 0 || year % 400 == 0)
}

/// The number of days in a month of a year.
pub open spec fn days_in_month(year: int, month: int) -> int {
    if month == 2 {
        if is_leap_year(year) {
            29
        } else {
            28
        }
    } else if month == 4 || month == 6 || month == 9 || month == 11 {
        30
    } else {
        31
    }
}

/// The fields name a date and time that chrono's `NaiveDateTime` can hold:
/// a day of its year range, a time of day, and a leap second only at the
/// end of a minute.
pub open spec fn fields_valid(f: DateTimeFields) -> bool {
    &&& -262143 <= f.year <= 262142
    &&& 1 <= f.month <= 12
    &&& 1 <= f.day <= days_in_month(f.year as int, f.month as int)
    &&& f.hour < 24 && f.minute < 60 && f.second < 60
    &&& f.nanosecond < 2_000_000_000
    &&& f.nanosecond >= 1_000_000_000 ==> f.second == 59
}

// ---------------------------------------------------------------------------
// Form timestamps
// ---------------------------------------------------------------------------

/// Whether `chrono_tz` knows a time zone by this name.
pub uninterp spec fn timezone_known(name: Seq<char>) -> bool;

/// Calls `<chrono_tz::Tz as FromStr>::from_str`. Claimed: it succeeds
/// exactly for the names `timezone_known` holds of (the zones compiled into
/// the crate).
#[verifier::external_body]
fn timezone_exists(name: &str) -> (r: bool)
    ensures
        r == timezone_known(name@),
{
    name.parse::<chrono_tz::Tz>().is_ok()
}

/// What `chrono::NaiveDateTime::parse_from_str` reads from an HTML
/// `datetime-local` value with the format `%Y-%m-%dT%H:%M`.
pub uninterp spec fn html_datetime_fields(s: Seq<char>) -> Option<DateTimeFields>;

/// Calls `chrono::NaiveDateTime::parse_from_str` with `%Y-%m-%dT%H:%M` and
/// hands out the date and time it read. Claimed: the result is
/// `html_datetime_fields` of the text, and, being read from a chrono
/// `NaiveDateTime`, it satisfies `fields_valid`.
#[verifier::external_body]
fn parse_html_datetime(s: &str) -> (r: Option<DateTimeFields>)
    ensures
        r == html_datetime_fields(s@),
        r matches Some(f) ==> fields_valid(f),
{
    let t = chrono::NaiveDateTime::parse_from_str(s, "%Y-%m-%dT%H:%M").ok()?;
    Some(DateTimeFields {
        year: t.year(),
        month: t.month(),
        day: t.day(),
        hour: t.hour(),
        minute: t.minute(),
        second: t.second(),
        nanosecond: t.nanosecond(),
    })
}

/// What `chrono::TimeZone::from_local_datetime` gives, in UTC, for a local
/// date and time in the named zone when that time names a single instant.
pub uninterp spec fn utc_of_local(zone: Seq<char>, local: DateTimeFields) -> Option<DateTimeFields>;

/// Calls `chrono::TimeZone::from_local_datetime` on the zone of that name
/// and keeps its single answer (`LocalResult::single`) in UTC
/// (`naive_utc`). Reading the name with `chrono_tz::Tz::from_str` and the
/// fields with `NaiveDate::from_ymd_opt` and `and_hms_nano_opt` converts
/// the arguments; an unknown name or fields that name no time give `None`.
/// Claimed: the result is `utc_of_local` of the name and the fields, which
/// depends on them alone (the zone rules compiled into `chrono_tz`), and,
/// being read from a chrono `NaiveDateTime`, it satisfies `fields_valid`.
#[verifier::external_body]
fn local_to_utc(timezone: &str, local: DateTimeFields) -> (r: Option<DateTimeFields>)
    ensures
        r == utc_of_local(timezone@, local),
        r matches Some(u) ==> fields_valid(u),
{
    let tz = timezone.parse::<chrono_tz::Tz>().ok()?;
    let date = chrono::NaiveDate::from_ymd_opt(local.year, local.month, local.day)?;
    let naive = date.and_hms_nano_opt(local.hour, local.minute, local.second, local.nanosecond)?;
    let u = tz.from_local_datetime(&naive).single()?.naive_utc();
    Some(DateTimeFields {
        year: u.year(),
        month: u.month(),
        day: u.day(),
        hour: u.hour(),
        minute: u.minute(),
        second: u.second(),
        nanosecond: u.nanosecond(),
    })
}

/// Why a form's date and time could not be read.
#[derive(Debug, Clone, Copy, PartialEq, Eq, Structural)]
pub enum FormTimeError {
    /// The time zone name is unknown.
    Timezone,
    /// The date and time are not in `datetime-local` form.
    Format,
    /// The local time does not name a single instant in the zone.
    NotSingle,
}

/// What a browser's local date and time in a zone come to in UTC: the zone
/// is checked first, then the text, then the conversion.
pub open spec fn form_time_in_utc(timestamp: Seq<char>, timezone: Seq<char>) -> Result<
    DateTimeFields,
    FormTimeError,
> {
    if !timezone_known(timezone) {
        Err(FormTimeError::Timezone)
    } else {
        match html_datetime_fields(timestamp) {
            None => Err(FormTimeError::Format),
            Some(local) => match utc_of_local(timezone, local) {
                Some(utc) => Ok(utc),
                None => Err(FormTimeError::NotSingle),
            },
        }
    }
}

/// Convert an HTML `datetime-local` input and JS timezone name to a UTC
/// timestamp.
pub fn js_timestamp_to_utc(timestamp: &str, timezone: &str) -> (r: Result<
    DateTimeFields,
    FormTimeError,
>)
    ensures
        r == form_time_in_utc(timestamp@, timezone@),
        r matches Ok(u) ==> fields_valid(u),
{
    if !timezone_exists(timezone) {
        return Err(FormTimeError::Timezone);
    }
    let local = match parse_html_datetime(timestamp) {
        Some(t) => t,
        None => {
            return Err(FormTimeError::Format);
        },
    };
    match local_to_utc(timezone, local) {
        Some(t) => Ok(t),
        None => Err(FormTimeError::NotSingle),
    }
}

// ---------------------------------------------------------------------------
// Dates as text
// ---------------------------------------------------------------------------

/// `n` in decimal, with zeros in front up to `width` digits.
pub open spec fn zero_padded(n: nat, width: nat) -> Seq<char> {
    let d = decimal(n);
    if d.len() < width {
        Seq::new((width - d.len()) as nat, |i: int| '0') + d
    } else {
        d
    }
}

/// A year as chrono's `%Y` writes it: four digits from 0 to 9999, else a
/// sign and at least four digits.
pub open spec fn year_text(year: int) -> Seq<char> {
    if 0 <= year <= 9999 {
        zero_padded(year as nat, 4)
    } else if year < 0 {
        seq!['-'] + zero_padded((-year) as nat, 4)
    } else {
        seq!['+'] + zero_padded(year as nat, 4)
    }
}

/// The seconds as chrono's `%S` writes them: 60 during a leap second.
pub open spec fn seconds_text(f: DateTimeFields) -> Seq<char> {
    zero_padded((f.second + f.nanosecond / 1_000_000_000) as nat, 2)
}

/// `%m/%d/%Y`.
pub open spec fn mdy_text(f: DateTimeFields) -> Seq<char> {
    zero_padded(f.month as nat, 2) + seq!['/'] + zero_padded(f.day as nat, 2) + seq!['/']
        + year_text(f.year as int)
}

/// `%m/%d/%Y %H:%M:%S`.
pub open spec fn mdy_hms_text(f: DateTimeFields) -> Seq<char> {
    mdy_text(f) + seq![' '] + zero_padded(f.hour as nat, 2) + seq![':'] + zero_padded(
        f.minute as nat,
        2,
    ) + seq![':'] + seconds_text(f)
}

/// `%Y-%m-%d %H:%M`.
pub open spec fn ymd_hm_text(f: DateTimeFields) -> Seq<char> {
    year_text(f.year as int) + seq!['-'] + zero_padded(f.month as nat, 2) + seq!['-']
        + zero_padded(f.day as nat, 2) + seq![' '] + zero_padded(f.hour as nat, 2) + seq![':']
        + zero_padded(f.minute as nat, 2)
}

/// Calls `chrono::NaiveDateTime::format` on the date and time and writes
/// the text out. The fields are first made into a `NaiveDateTime` with
/// `NaiveDate::from_ymd_opt` and `and_hms_nano_opt`, which succeed on valid
/// fields. Claimed, for the three formats the library uses: the text is
/// what chrono documents for `%m`, `%d`, `%Y`, `%H`, `%M` and `%S`
/// (`mdy_text`, `mdy_hms_text`, `ymd_hm_text`). The formats admitted are
/// all ones chrono can read, so writing them out does not fail.
#[verifier::external_body]
fn format_fields(f: DateTimeFields, fmt: &str) -> (s: String)
    requires
        fields_valid(f),
        fmt@ == "%m/%d/%Y"@ || fmt@ == "%m/%d/%Y %H:%M:%S"@ || fmt@ == "%Y-%m-%d %H:%M"@,
    ensures
        fmt@ == "%m/%d/%Y"@ ==> s@ == mdy_text(f),
        fmt@ == "%m/%d/%Y %H:%M:%S"@ ==> s@ == mdy_hms_text(f),
        fmt@ == "%Y-%m-%d %H:%M"@ ==> s@ == ymd_hm_text(f),
{
    let date = chrono::NaiveDate::from_ymd_opt(f.year, f.month, f.day).expect("valid date");
    let t = date.and_hms_nano_opt(f.hour, f.minute, f.second, f.nanosecond).expect("valid time");
    t.format(fmt).to_string()
}

/// A date and time as `%Y-%m-%d %H:%M` writes it.
pub fn format_year_month_day_time(f: DateTimeFields) -> (s: String)
    requires
        fields_valid(f),
    ensures
        s@ == ymd_hm_text(f),
{
    format_fields(f, "%Y-%m-%d %H:%M")
}

// ---------------------------------------------------------------------------
// Template filters
// ---------------------------------------------------------------------------

/// What `chrono::DateTime::parse_from_rfc3339` reads from the text, as the
/// local date and time it names (the offset dropped).
pub uninterp spec fn rfc3339_local_fields(s: Seq<char>) -> Option<DateTimeFields>;

/// Calls `chrono::DateTime::parse_from_rfc3339` and hands out the local
/// date and time it read (`naive_local`). Claimed: the result is
/// `rfc3339_local_fields` of the text, and, being read from a chrono
/// `NaiveDateTime`, it satisfies `fields_valid`.
#[verifier::external_body]
fn parse_rfc3339_local(s: &str) -> (r: Option<DateTimeFields>)
    ensures
        r == rfc3339_local_fields(s@),
        r matches Some(f) ==> fields_valid(f),
{
    let t = chrono::DateTime::parse_from_rfc3339(s).ok()?.naive_local();
    Some(DateTimeFields {
        year: t.year(),
        month: t.month(),
        day: t.day(),
        hour: t.hour(),
        minute: t.minute(),
        second: t.second(),
        nanosecond: t.nanosecond(),
    })
}

/// The `simple_date` filter: an RFC 3339 date as month/day/year, or `None`
/// when the text is not RFC 3339 (the page then cannot be rendered).
pub fn simple_date(date: &str) -> (r: Option<String>)
    ensures
        match rfc3339_local_fields(date@) {
            Some(f) => r matches Some(s) && s@ == mdy_text(f),
            None => r is None,
        },
{
    match parse_rfc3339_local(date) {
        Some(f) => Some(format_fields(f, "%m/%d/%Y")),
        None => None,
    }
}

/// The `nice_date` filter: an RFC 3339 date and time as month/day/year
/// hour:minute:second, or `None` when the text is not RFC 3339.
pub fn nice_date(date: &str) -> (r: Option<String>)
    ensures
        match rfc3339_local_fields(date@) {
            Some(f) => r matches Some(s) && s@ == mdy_hms_text(f),
            None => r is None,
        },
{
    match parse_rfc3339_local(date) {
        Some(f) => Some(format_fields(f, "%m/%d/%Y %H:%M:%S")),
        None => None,
    }
}

/// The `minutes_to_hm` filter's text: hours and minutes, as `1h5m`, or
/// nothing for no time at all.
pub open spec fn minutes_to_hm_spec(total: u32) -> Seq<char> {
    let hours = total / 60;
    let minutes = total % 60;
    if hours > 0 || minutes > 0 {
        decimal(hours as nat) + "h"@ + decimal(minutes as nat) + "m"@
    } else {
        Seq::empty()
    }
}

/// The `minutes_to_hm` filter: a number of minutes as hours and minutes.
pub fn minutes_to_hm(total_minutes: u32) -> (s: String)
    ensures
        s@ == minutes_to_hm_spec(total_minutes),
{
    let hours = total_minutes / 60;
    let minutes = total_minutes % 60;
    if hours > 0 || minutes > 0 {
        let mut v: Vec<char> = Vec::new();
        push_decimal(&mut v, hours as u64);
        append_str(&mut v, "h");
        push_decimal(&mut v, minutes as u64);
        append_str(&mut v, "m");
        string_from_chars(&v)
    } else {
        String::new()
    }
}

} // verus!
