//! Calendar dates, through `chrono`: which dates exist, how they are
//! written, moving a date by days and the instant a date starts.
use vstd::prelude::*;

use crate::money::two_digits;
use crate::text::{decimal, zero_pad};

verus! {

/// The first and last years `chrono::NaiveDate` holds.
pub open spec fn min_year() -> int {
    -262143
}

pub open spec fn max_year() -> int {
    262142
}

/// A leap year of the proleptic Gregorian calendar.
pub open spec fn is_leap(y: int) -> bool {
    (y % 4 == 0 && y % 100 != 0) || y % 400 == 0
}

pub open spec fn days_in_month(y: int, m: int) -> int {
    if m == 2 {
        if is_leap(y) {
            29
        } else {
            28
        }
    } else if m == 4 || m == 6 || m == 9 || m == 11 {
        30
    } else {
        31
    }
}

/// Whether `chrono::NaiveDate::from_ymd_opt` accepts a date.
pub open spec fn valid_ymd(y: int, m: int, d: int) -> bool {
    min_year() <= y <= max_year() && 1 <= m <= 12 && 1 <= d <= days_in_month(y, m)
}

/// `%Y`: four digits for the years 0 to 9999, else a sign and at least
/// four digits.
pub open spec fn year_text(y: int) -> Seq<char> {
    if 0 <= y <= 9999 {
        zero_pad(decimal(y as nat), 4)
    } else if y < 0 {
        seq!['-'] + zero_pad(decimal((-y) as nat), 4)
    } else {
        seq!['+'] + zero_pad(decimal(y as nat), 4)
    }
}

/// `%d/%m/%Y`.
pub open spec fn slash_date(y: int, m: int, d: int) -> Seq<char> {
    two_digits(d as nat) + seq!['/'] + two_digits(m as nat) + seq!['/'] + year_text(y)
}

/// `%d%m%Y`.
pub open spec fn digit_date(y: int, m: int, d: int) -> Seq<char> {
    two_digits(d as nat) + two_digits(m as nat) + year_text(y)
}

/// Builds a date with `chrono::NaiveDate::from_ymd_opt` and writes it as
/// `%d/%m/%Y` and as `%d%m%Y`.  The contract states chrono's documented
/// range and calendar rules and the padding its `%d`, `%m` and `%Y` use.
#[verifier::external_body]
pub(crate) fn calendar_date_texts(year: i32, month: u32, day: u32) -> (r: Option<(String, String)>)
    ensures
        r is Some <==> valid_ymd(year as int, month as int, day as int),
        r matches Some((a, b)) ==> a@ == slash_date(year as int, month as int, day as int) && b@ == digit_date(
            year as int,
            month as int,
            day as int,
        ),
{
    let date = chrono::NaiveDate::from_ymd_opt(year, month, day)?;
    Some((date.format("%d/%m/%Y").to_string(), date.format("%d%m%Y").to_string()))
}

/// The date (year, month, day) of the proleptic Gregorian calendar that
/// lies a number of days after 1970-01-01 (before it when negative).
pub open spec fn civil_from_days(n: int) -> (int, int, int) {
    let z = n + 719468;
    let era = z / 146097;
    let doe = z - era * 146097;
    let yoe = (doe - doe / 1460 + doe / 36524 - doe / 146096) / 365;
    let doy = doe - (365 * yoe + yoe / 4 - yoe / 100);
    let mp = (5 * doy + 2) / 153;
    let d = doy - (153 * mp + 2) / 5 + 1;
    let m = if mp < 10 { mp + 3 } else { mp - 9 };
    let y = yoe + era * 400;
    (if m <= 2 { y + 1 } else { y }, m, d)
}

/// The `%d%m%Y` text of a date moved by a number of days, or nothing
/// where the result leaves chrono's range.
pub open spec fn moved_date(year: i32, month: u32, day: u32, days: i64) -> Option<Seq<char>> {
    let t = civil_from_days(days_from_civil(year as int, month as int, day as int) + days);
    if valid_ymd(t.0, t.1, t.2) {
        Some(digit_date(t.0, t.1, t.2))
    } else {
        None
    }
}

/// Moves a date by a number of days with `chrono::NaiveDate::from_ymd_opt`,
/// `TimeDelta::try_days` and `NaiveDate::checked_add_signed`, and writes
/// it as `%d%m%Y`.  Nothing for a date that does not exist (chrono's
/// documented rules) or a result outside chrono's range (a number of days
/// too large for `TimeDelta` moves any date out of that range).
#[verifier::external_body]
pub(crate) fn move_date(year: i32, month: u32, day: u32, days: i64) -> (r: Option<String>)
    ensures
        !valid_ymd(year as int, month as int, day as int) ==> r is None,
        valid_ymd(year as int, month as int, day as int) ==> match r {
            Some(s) => moved_date(year, month, day, days) == Some(s@),
            None => moved_date(year, month, day, days) is None,
        },
{
    let date = chrono::NaiveDate::from_ymd_opt(year, month, day)?;
    let moved = date.checked_add_signed(chrono::TimeDelta::try_days(days)?)?;
    Some(moved.format("%d%m%Y").to_string())
}

/// Days from 1970-01-01 to a date of the proleptic Gregorian calendar
/// (negative before it), counted by eras of 400 years from March.
pub open spec fn days_from_civil(y: int, m: int, d: int) -> int {
    let y2 = if m <= 2 { y - 1 } else { y };
    let era = y2 / 400;
    let yoe = y2 - era * 400;
    let mp = (m + 9) % 12;
    let doy = (153 * mp + 2) / 5 + d - 1;
    let doe = yoe * 365 + yoe / 4 - yoe / 100 + doy;
    era * 146097 + doe - 719468
}

/// The Unix time of the start (UTC) of a day.
pub open spec fn day_timestamp(year: i32, month: u32, day: u32) -> i64 {
    (days_from_civil(year as int, month as int, day as int) * 86400) as i64
}

/// The Unix time of midnight (UTC) of a date, through
/// `chrono::NaiveDate::from_ymd_opt`, `and_hms_opt(0, 0, 0)`, `and_utc` and
/// `timestamp`: nothing for a date that does not exist, else its days
/// since 1970-01-01 times 86400.
#[verifier::external_body]
pub(crate) fn date_timestamp(year: i32, month: u32, day: u32) -> (r: Option<i64>)
    ensures
        r is Some <==> valid_ymd(year as int, month as int, day as int),
        r matches Some(t) ==> t == days_from_civil(year as int, month as int, day as int) * 86400,
{
    let date = chrono::NaiveDate::from_ymd_opt(year, month, day)?;
    Some(date.and_hms_opt(0, 0, 0)?.and_utc().timestamp())
}

} // verus!
