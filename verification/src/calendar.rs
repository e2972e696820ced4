//! Calendar values, and the date and time parsing that the date library does
//! for the importers.
use chrono::{Datelike, Timelike};
use vstd::prelude::*;

verus! {

/// A wall-clock date and time in Korea (UTC+9), with the instant it names
/// in seconds since the Unix epoch.
#[derive(Debug, Clone, Copy, PartialEq, Eq)]
pub struct LocalDateTime {
    pub year: i32,
    pub month: u32,
    pub day: u32,
    pub hour: u32,
    pub minute: u32,
    pub second: u32,
    pub utc_seconds: i64,
}

/// Korea's offset from UTC, in seconds.
pub const KST_OFFSET_SECS: i32 = 32400;

/// A calendar date.
#[derive(Debug, Clone, Copy, PartialEq, Eq)]
pub struct CalendarDate {
    pub year: i32,
    pub month: u32,
    pub day: u32,
}

impl CalendarDate {
    /// The date library knows this date.
    pub open spec fn valid(self) -> bool {
        chrono_ymd_valid(self.year, self.month, self.day)
    }
}

/// The (year, month, day) that `chrono::NaiveDate::parse_from_str(s, fmt)`
/// reads, or `None` where it fails.
pub uninterp spec fn chrono_date(s: Seq<char>, fmt: Seq<char>) -> Option<(i32, u32, u32)>;

/// The (hour, minute, second) that `chrono::NaiveTime::parse_from_str(s, fmt)`
/// reads, or `None` where it fails.
pub uninterp spec fn chrono_time(s: Seq<char>, fmt: Seq<char>) -> Option<(u32, u32, u32)>;

/// The date part of what `chrono::NaiveDateTime::parse_from_str(s, fmt)`
/// reads, or `None` where it fails.
pub uninterp spec fn chrono_datetime_date(s: Seq<char>, fmt: Seq<char>) -> Option<(i32, u32, u32)>;

/// A leap year of the proleptic Gregorian calendar.
pub open spec fn is_leap_year(y: int) -> bool {
    y % 4 == 0 && (y % 100 != 0 || y % 400 == 0)
}

/// The number of days of month `m` of year `y`.
pub open spec fn days_in_month(y: int, m: int) -> int {
    if m == 2 {
        if is_leap_year(y) {
            29
        } else {
            28
        }
    } else if m == 4 || m == 6 || m == 9 || m == 11 {
        30
    } else {
        31
    }
}

/// Whether `chrono::NaiveDate::from_ymd_opt(y, m, d)` gives a date: the
/// year lies in chrono's range (`MIN_YEAR` to `MAX_YEAR`, -262143 to
/// 262142), and the month and day name a day of the proleptic Gregorian
/// calendar.
pub open spec fn chrono_ymd_valid(y: i32, m: u32, d: u32) -> bool {
    &&& -262143 <= y <= 262142
    &&& 1 <= m <= 12
    &&& 1 <= d <= days_in_month(y as int, m as int)
}

/// What `chrono::DateTime::<Utc>::from_timestamp(secs, 0)` formatted with
/// `%Y-%m-%dT%H:%M:%S` gives, or `None` for an out-of-range timestamp.
pub uninterp spec fn chrono_iso_seconds(secs: i64) -> Option<Seq<char>>;

/// The instant, in seconds since the Unix epoch, that the date library gives
/// the wall-clock time `y-mo-d h:mi:s` at `offset_secs` east of UTC, or
/// `None` where it makes no single instant of them.
pub uninterp spec fn chrono_local_instant(
    y: i32,
    mo: u32,
    d: u32,
    h: u32,
    mi: u32,
    s: u32,
    offset_secs: i32,
) -> Option<i64>;

/// `NaiveDate::from_ymd_opt`, `and_hms_opt`, `and_local_timezone` with a
/// `FixedOffset`, `single` and `timestamp`; named `chrono_local_instant`. An
/// instant it gives is one that `DateTime::from_timestamp` takes back, as
/// both stay within the date library's range of dates.
#[verifier::external_body]
pub(crate) fn local_instant(y: i32, mo: u32, d: u32, h: u32, mi: u32, s: u32, offset_secs: i32) -> (r: Option<i64>)
    ensures
        r == chrono_local_instant(y, mo, d, h, mi, s, offset_secs),
        r matches Some(ts) ==> chrono_iso_seconds(ts) is Some,
{
    let offset = chrono::FixedOffset::east_opt(offset_secs)?;
    let naive = chrono::NaiveDate::from_ymd_opt(y, mo, d)?.and_hms_opt(h, mi, s)?;
    Some(naive.and_local_timezone(offset).single()?.timestamp())
}

/// A Korean wall-clock time with its instant, where the date library places
/// it.
pub open spec fn kst_datetime_spec(y: i32, mo: u32, d: u32, h: u32, mi: u32, s: u32) -> Option<LocalDateTime> {
    match chrono_local_instant(y, mo, d, h, mi, s, KST_OFFSET_SECS) {
        Some(ts) => Some(
            LocalDateTime { year: y, month: mo, day: d, hour: h, minute: mi, second: s, utc_seconds: ts },
        ),
        None => None,
    }
}

/// The Korean wall-clock time `y-mo-d h:mi:s` with the instant it names.
pub fn kst_datetime(y: i32, mo: u32, d: u32, h: u32, mi: u32, s: u32) -> (r: Option<LocalDateTime>)
    ensures
        r == kst_datetime_spec(y, mo, d, h, mi, s),
        r matches Some(t) ==> chrono_iso_seconds(t.utc_seconds) is Some,
{
    match local_instant(y, mo, d, h, mi, s, KST_OFFSET_SECS) {
        Some(ts) => Some(
            LocalDateTime { year: y, month: mo, day: d, hour: h, minute: mi, second: s, utc_seconds: ts },
        ),
        None => None,
    }
}

/// `chrono::NaiveDate::parse_from_str`, giving the date's fields. The result
/// is named `chrono_date`: chrono's format language is not restated here. A
/// date it gives is one the library knows, so its year lies in the library's
/// range (-262143 to 262142) and its month in 1 to 12.
#[verifier::external_body]
pub(crate) fn parse_date_fmt(s: &str, fmt: &str) -> (r: Option<(i32, u32, u32)>)
    ensures
        r == chrono_date(s@, fmt@),
        r matches Some((y, m, d)) ==> chrono_ymd_valid(y, m, d),
        r matches Some((y, m, d)) ==> -262143 <= y <= 262142 && 1 <= m <= 12,
{
    match chrono::NaiveDate::parse_from_str(s, fmt) {
        Ok(d) => Some((d.year(), d.month(), d.day())),
        Err(_) => None,
    }
}

/// `chrono::NaiveTime::parse_from_str`, giving the time's fields; named
/// `chrono_time`.
#[verifier::external_body]
pub(crate) fn parse_time_fmt(s: &str, fmt: &str) -> (r: Option<(u32, u32, u32)>)
    ensures
        r == chrono_time(s@, fmt@),
{
    match chrono::NaiveTime::parse_from_str(s, fmt) {
        Ok(t) => Some((t.hour(), t.minute(), t.second())),
        Err(_) => None,
    }
}

/// `chrono::NaiveDateTime::parse_from_str`, giving the date's fields; named
/// `chrono_datetime_date`.
#[verifier::external_body]
pub(crate) fn parse_datetime_date_fmt(s: &str, fmt: &str) -> (r: Option<(i32, u32, u32)>)
    ensures
        r == chrono_datetime_date(s@, fmt@),
        r matches Some((y, m, d)) ==> chrono_ymd_valid(y, m, d),
{
    match chrono::NaiveDateTime::parse_from_str(s, fmt) {
        Ok(dt) => Some((dt.date().year(), dt.date().month(), dt.date().day())),
        Err(_) => None,
    }
}

/// `chrono::NaiveDate::from_ymd_opt(..).is_some()`: as its documentation
/// says, a date exists where the year is in range and the month and day
/// name a calendar day (see `chrono_ymd_valid`).
#[verifier::external_body]
pub(crate) fn ymd_valid(y: i32, m: u32, d: u32) -> (b: bool)
    ensures
        b == chrono_ymd_valid(y, m, d),
{
    chrono::NaiveDate::from_ymd_opt(y, m, d).is_some()
}

/// What `chrono::NaiveDate::format(fmt)` writes for the date `y-m-d`, or
/// `None` where the library knows no such date.
pub uninterp spec fn chrono_date_text(y: i32, m: u32, d: u32, fmt: Seq<char>) -> Option<Seq<char>>;

/// `NaiveDate::from_ymd_opt` and `format(fmt).to_string()` for one of the
/// layouts `%Y-%m-%d`, `%Y%m%d` and `%Y-%m`; named `chrono_date_text`. A date
/// the library knows is always written.
#[verifier::external_body]
pub(crate) fn format_date(y: i32, m: u32, d: u32, fmt: &str) -> (r: Option<String>)
    requires
        fmt@ == "%Y-%m-%d"@ || fmt@ == "%Y%m%d"@ || fmt@ == "%Y-%m"@,
    ensures
        match r {
            Some(t) => chrono_date_text(y, m, d, fmt@) == Some(t@),
            None => chrono_date_text(y, m, d, fmt@) is None,
        },
        chrono_ymd_valid(y, m, d) ==> r is Some,
{
    chrono::NaiveDate::from_ymd_opt(y, m, d).map(|date| date.format(fmt).to_string())
}

/// The date `days` days after `y-m-d`, as the date library counts, or `None`
/// where either date is outside its range.
pub uninterp spec fn chrono_add_days(y: i32, m: u32, d: u32, days: i64) -> Option<(i32, u32, u32)>;

/// `NaiveDate::from_ymd_opt` and `checked_add_signed(Duration::days(days))`;
/// named `chrono_add_days`. What it gives is a date the library knows; from a
/// known date of the years 1 to 9999, at most 100000 days on stays inside the
/// library's range of dates.
#[verifier::external_body]
pub(crate) fn add_days(y: i32, m: u32, d: u32, days: i64) -> (r: Option<(i32, u32, u32)>)
    requires
        0 <= days <= 100000,
    ensures
        r == chrono_add_days(y, m, d, days),
        r matches Some((ry, rm, rd)) ==> chrono_ymd_valid(ry, rm, rd),
        chrono_ymd_valid(y, m, d) && 1 <= y <= 9999 ==> r is Some,
{
    let date = chrono::NaiveDate::from_ymd_opt(y, m, d)?;
    let later = date.checked_add_signed(chrono::Duration::days(days))?;
    Some((later.year(), later.month(), later.day()))
}

/// What `chrono::DateTime::<Utc>::from_timestamp(secs, 0)`, shown at
/// `offset_secs` east of UTC and formatted with `fmt`, writes; `None` where
/// the timestamp or the offset is out of the library's range.
pub uninterp spec fn chrono_instant_text(secs: i64, offset_secs: i32, fmt: Seq<char>) -> Option<Seq<char>>;

/// `FixedOffset::east_opt`, `DateTime::from_timestamp`, `with_timezone` and
/// `format(fmt).to_string()` for the layout `%m-%d %H:%M`; named
/// `chrono_instant_text`.
#[verifier::external_body]
pub(crate) fn instant_text(secs: i64, offset_secs: i32, fmt: &str) -> (r: Option<String>)
    requires
        fmt@ == "%m-%d %H:%M"@,
    ensures
        match r {
            Some(t) => chrono_instant_text(secs, offset_secs, fmt@) == Some(t@),
            None => chrono_instant_text(secs, offset_secs, fmt@) is None,
        },
{
    let offset = chrono::FixedOffset::east_opt(offset_secs)?;
    let at = chrono::DateTime::from_timestamp(secs, 0)?;
    Some(at.with_timezone(&offset).format(fmt).to_string())
}

/// `chrono::DateTime::<Utc>::from_timestamp(secs, 0)` written with
/// `%Y-%m-%dT%H:%M:%S`; named `chrono_iso_seconds`.
#[verifier::external_body]
pub(crate) fn iso_seconds(secs: i64) -> (r: Option<String>)
    ensures
        match r {
            Some(s) => chrono_iso_seconds(secs) == Some(s@),
            None => chrono_iso_seconds(secs) is None,
        },
{
    match chrono::DateTime::from_timestamp(secs, 0) {
        Some(dt) => Some(dt.format("%Y-%m-%dT%H:%M:%S").to_string()),
        None => None,
    }
}

/// The month `delta` months from `year`-`month`, as (year, month).
pub open spec fn shift_month_spec(year: int, month: int, delta: int) -> (int, int) {
    let total = year * 12 + (month - 1) + delta;
    (total / 12, total % 12 + 1)
}

/// Moving `a` months and then `b` months is moving `a + b` months, and
/// moving no months stays: so the month before the month after a month is
/// that month.
pub proof fn lemma_shift_month_compose(year: int, month: int, a: int, b: int)
    requires
        1 <= month <= 12,
    ensures
        ({
            let (y1, m1) = shift_month_spec(year, month, a);
            shift_month_spec(y1, m1, b) == shift_month_spec(year, month, a + b)
        }),
        shift_month_spec(year, month, 0) == (year, month),
{
    let total = year * 12 + (month - 1) + a;
    assert((total / 12) * 12 + total % 12 == total);
    assert((year * 12 + (month - 1)) / 12 == year);
    assert((year * 12 + (month - 1)) % 12 == month - 1);
}

/// The first day's (year, month) of the month `delta` months away from the
/// month of `year`-`month`.
pub fn shift_month(year: i32, month: u32, delta: i32) -> (r: (i32, u32))
    requires
        1 <= month <= 12,
        -1200 <= delta <= 1200,
        i32::MIN + 200 <= year <= i32::MAX - 200,
    ensures
        r.0 as int == shift_month_spec(year as int, month as int, delta as int).0,
        r.1 as int == shift_month_spec(year as int, month as int, delta as int).1,
        1 <= r.1 <= 12,
{
    let mut y: i32 = year;
    let mut m: i32 = month as i32 + delta;
    let ghost total = year * 12 + (month - 1) + delta;
    while m <= 0
        invariant
            m + 12 * (y - year) == month + delta,
            y <= year,
            year - y <= 100,
            i32::MIN + 200 <= year <= i32::MAX - 200,
            -1200 <= delta <= 1200,
            1 <= month <= 12,
        decreases 12 - m,
    {
        m += 12;
        y -= 1;
    }
    while m > 12
        invariant
            m + 12 * (y - year) == month + delta,
            m >= 1,
            year - y <= 100,
            y - year <= 101,
            i32::MIN + 200 <= year <= i32::MAX - 200,
            -1200 <= delta <= 1200,
            1 <= month <= 12,
        decreases m,
    {
        m -= 12;
        y += 1;
    }
    assert(y * 12 + (m - 1) == total);
    assert(total / 12 == y && total % 12 == m - 1) by (nonlinear_arith)
        requires
            y * 12 + (m - 1) == total,
            1 <= m <= 12,
    ;
    (y, m as u32)
}

} // verus!
