//! Time stamps of log lines.

use crate::text;
use vstd::prelude::*;
use vstd::string::*;

verus! {

pub open spec fn is_leap(y: int) -> bool {
    y % 4 == 0 && (y % 100 != 0 || y % 400 == 0)
}

pub open spec fn days_in_year(y: int) -> int {
    if is_leap(y) {
        366
    } else {
        365
    }
}

pub open spec fn days_in_month(y: int, m: int) -> int {
    if m == 2 {
        if is_leap(y) {
            29
        } else {
            28
        }
    } else if m == 4 || m == 6 || m == 9 || m == 11 {
        30
    } else {
        31
    }
}

/// Days from the start of 1970 to the start of a later year.
pub open spec fn days_to_year(y: int) -> int
    decreases y,
{
    if y <= 1970 {
        0
    } else {
        days_to_year(y - 1) + days_in_year(y - 1)
    }
}

/// Days from the start of a year to the start of a month.
pub open spec fn days_to_month(y: int, m: int) -> int
    decreases m,
{
    if m <= 1 {
        0
    } else {
        days_to_month(y, m - 1) + days_in_month(y, m - 1)
    }
}

pub open spec fn is_date(y: int, m: int, d: int) -> bool {
    1970 <= y && 1 <= m <= 12 && 1 <= d <= days_in_month(y, m)
}

/// The number of a date, counted in days from the first of January 1970.
pub open spec fn day_number(y: int, m: int, d: int) -> int {
    days_to_year(y) + days_to_month(y, m) + d - 1
}

/// Leap years among the years from 1 to `y`.
spec fn leaps(y: int) -> int {
    y / 4 - y / 100 + y / 400
}

proof fn leap_step(y: int)
    requires
        y > 0,
    ensures
        leaps(y) == leaps(y - 1) + if is_leap(y) {
            1int
        } else {
            0
        },
{
}

proof fn days_to_year_closed(y: int)
    requires
        y >= 1970,
    ensures
        days_to_year(y) == 365 * (y - 1970) + leaps(y - 1) - 477,
    decreases y,
{
    if y > 1970 {
        days_to_year_closed(y - 1);
        leap_step(y - 1);
    } else {
        assert(leaps(1969) == 477);
    }
}

proof fn days_to_month_closed(y: int, m: int)
    requires
        1 <= m <= 12,
    ensures
        days_to_month(y, m) == if m == 1 {
            0
        } else if m == 2 {
            31
        } else {
            (153 * (m - 3) + 2) / 5 + 59 + if is_leap(y) {
                1int
            } else {
                0
            }
        },
    decreases m,
{
    if m > 1 {
        days_to_month_closed(y, m - 1);
    }
}

/// A date and the day after it have neighbouring numbers, so two dates with the
/// same number are the same date.
proof fn days_to_month_grows(y: int, a: int, b: int)
    requires
        1 <= a < b <= 12,
    ensures
        days_to_month(y, a) + days_in_month(y, a) <= days_to_month(y, b),
    decreases b,
{
    if a + 1 < b {
        days_to_month_grows(y, a, b - 1);
    }
}

proof fn days_to_year_grows(a: int, b: int)
    requires
        1970 <= a < b,
    ensures
        days_to_year(a) + days_in_year(a) <= days_to_year(b),
    decreases b,
{
    if a + 1 < b {
        days_to_year_grows(a, b - 1);
    }
}

/// A number is the number of one date only.
pub proof fn day_numbers_are_unique(y: int, m: int, d: int, y2: int, m2: int, d2: int)
    requires
        is_date(y, m, d),
        is_date(y2, m2, d2),
        day_number(y, m, d) == day_number(y2, m2, d2),
    ensures
        y == y2,
        m == m2,
        d == d2,
{
    days_to_month_closed(y, m);
    days_to_month_closed(y2, m2);
    if y < y2 {
        days_to_year_grows(y, y2);
    } else if y2 < y {
        days_to_year_grows(y2, y);
    } else if m < m2 {
        days_to_month_grows(y, m, m2);
    } else if m2 < m {
        days_to_month_grows(y, m2, m);
    }
}

/// The year of an era of 400 years that starts in March, and the day of that
/// year, of a day of the era.
proof fn year_of_era(doe: int, yoe: int)
    requires
        0 <= doe < 146097,
        yoe == (doe - doe / 1460 + doe / 36524 - doe / 146096) / 365,
    ensures
        0 <= yoe < 400,
        0 <= doe - (365 * yoe + yoe / 4 - yoe / 100) <= 365,
        doe - (365 * yoe + yoe / 4 - yoe / 100) == 365 ==> is_leap(yoe + 1),
{
    let century = doe / 36524;
    let quad = doe / 1460;
    assert(0 <= century <= 4);
    assert(century == 4 ==> doe == 146096);
    assert(doe / 146096 == if doe == 146096 { 1int } else { 0int });
    if century == 0 {
    } else if century == 1 {
    } else if century == 2 {
    } else if century == 3 {
    } else {
    }
}

/// A day counted from March of the year 0, as a year that starts in March and a
/// day of that year.
proof fn era_days(z: int, e: int, doe: int, a: int, doy: int)
    requires
        0 <= e,
        0 <= doe < 146097,
        z == 146097 * e + doe,
        0 <= a < 400,
        doy == doe - (365 * a + a / 4 - a / 100),
        doy == 365 ==> is_leap(a + 1),
    ensures
        z == 365 * (a + e * 400) + leaps(a + e * 400) + doy,
        doy == 365 ==> is_leap(a + e * 400 + 1),
{
    let y = a + e * 400;
    assert(y / 4 == 100 * e + a / 4);
    assert(y / 100 == 4 * e + a / 100);
    assert(y / 400 == e);
    assert((y + 1) % 4 == (a + 1) % 4);
    assert((y + 1) % 100 == (a + 1) % 100);
    assert((y + 1) % 400 == (a + 1) % 400);
}

/// The month, counted from March, of a day of such a year.
proof fn month_of_year(doy: int, mp: int)
    requires
        0 <= doy <= 365,
        mp == (5 * doy + 2) / 153,
    ensures
        0 <= mp <= 11,
        (153 * mp + 2) / 5 <= doy,
        mp < 11 ==> doy < (153 * (mp + 1) + 2) / 5,
{
}

/// A day of a year that starts in March is a date.
proof fn date_of_march_year(days: int, y: int, doy: int, mp: int)
    requires
        0 <= days,
        0 <= y,
        days + 719468 == 365 * y + leaps(y) + doy,
        0 <= doy <= 365,
        doy == 365 ==> is_leap(y + 1),
        0 <= mp <= 11,
        (153 * mp + 2) / 5 <= doy,
        mp < 11 ==> doy < (153 * (mp + 1) + 2) / 5,
    ensures
        ({
            let month = if mp < 10 {
                mp + 3
            } else {
                mp - 9
            };
            let year = if month <= 2 {
                y + 1
            } else {
                y
            };
            let day = doy - (153 * mp + 2) / 5 + 1;
            is_date(year, month, day) && day_number(year, month, day) == days
        }),
{
    let month = if mp < 10 {
        mp + 3
    } else {
        mp - 9
    };
    let year = if month <= 2 {
        y + 1
    } else {
        y
    };
    assert(year >= 1970) by {
        if y < 1969 {
            assert(leaps(y) <= y / 4);
        } else if y == 1969 {
            assert(leaps(1969) == 477);
        }
    }
    days_to_year_closed(year);
    days_to_month_closed(year, month);
    leap_step(year);
}

/// The date of a day counted from the first of January 1970.
pub fn civil_from_days(days: u64) -> (r: (u64, u64, u64))
    requires
        days <= i64::MAX / 86400,
    ensures
        is_date(r.0 as int, r.1 as int, r.2 as int),
        day_number(r.0 as int, r.1 as int, r.2 as int) == days,
{
    let z: u64 = days + 719468;
    let era: u64 = z / 146097;
    let doe: u64 = z % 146097;
    let yoe: u64 = (doe - doe / 1460 + doe / 36524 - doe / 146096) / 365;
    proof {
        year_of_era(doe as int, yoe as int);
    }
    let y: u64 = yoe + era * 400;
    let doy: u64 = doe - (365 * yoe + yoe / 4 - yoe / 100);
    let mp: u64 = (5 * doy + 2) / 153;
    let day: u64 = doy - (153 * mp + 2) / 5 + 1;
    let month: u64 = if mp < 10 {
        mp + 3
    } else {
        mp - 9
    };
    let year: u64 = if month <= 2 {
        y + 1
    } else {
        y
    };
    proof {
        era_days(z as int, era as int, doe as int, yoe as int, doy as int);
        month_of_year(doy as int, mp as int);
        date_of_march_year(days as int, y as int, doy as int, mp as int);
    }
    (year, month, day)
}

/// `n` in decimal digits, with zeros in front up to a width.
pub open spec fn padded(n: nat, width: nat) -> Seq<char> {
    let digits = text::decimal_of(n);
    if digits.len() >= width {
        digits
    } else {
        zeros((width - digits.len()) as nat) + digits
    }
}

pub open spec fn zeros(n: nat) -> Seq<char>
    decreases n,
{
    if n == 0 {
        seq![]
    } else {
        zeros((n - 1) as nat) + "0"@
    }
}

fn pad(n: u64, width: usize) -> (r: String)
    ensures
        r@ == padded(n as nat, width as nat),
{
    let digits = text::decimal(n);
    let len = text::chars_of(digits.as_str()).len();
    if len >= width {
        return digits;
    }
    let mut out = String::new();
    let mut i: usize = 0;
    while i < width - len
        invariant
            i <= width - len,
            len < width,
            out@ == zeros(i as nat),
        decreases width - len - i,
    {
        out.append("0");
        i = i + 1;
    }
    out.append(digits.as_str());
    out
}

/// A point in time as ISO 8601 text, such as `2026-07-18T12:34:56.789Z`.
pub open spec fn is_stamp(s: Seq<char>, secs: int, millis: int) -> bool {
    exists|y: int, m: int, d: int|
        #![trigger day_number(y, m, d)]
        {
            &&& is_date(y, m, d)
            &&& day_number(y, m, d) == secs / 86400
            &&& s == padded(y as nat, 4) + "-"@ + padded(m as nat, 2) + "-"@ + padded(d as nat, 2)
                + "T"@ + padded((secs % 86400 / 3600) as nat, 2) + ":"@ + padded(
                (secs % 3600 / 60) as nat,
                2,
            ) + ":"@ + padded((secs % 60) as nat, 2) + "."@ + padded(millis as nat, 3) + "Z"@
        }
}

/// The UTC time a number of seconds and milliseconds after the start of 1970, as
/// ISO 8601 text.
pub fn iso_utc(secs: u64, millis: u32) -> (r: String)
    requires
        secs <= i64::MAX,
    ensures
        is_stamp(r@, secs as int, millis as int),
{
    let (year, month, day) = civil_from_days(secs / 86400);
    let sod: u64 = secs % 86400;
    assert(sod % 3600 == secs % 3600);
    assert(sod % 60 == secs % 60);
    let mut s = pad(year, 4);
    s.append("-");
    s.append(pad(month, 2).as_str());
    s.append("-");
    s.append(pad(day, 2).as_str());
    s.append("T");
    s.append(pad(sod / 3600, 2).as_str());
    s.append(":");
    s.append(pad((sod % 3600) / 60, 2).as_str());
    s.append(":");
    s.append(pad(sod % 60, 2).as_str());
    s.append(".");
    s.append(pad(millis as u64, 3).as_str());
    s.append("Z");
    assert(day_number(year as int, month as int, day as int) == secs / 86400);
    s
}

/// A line of the shared output log.
pub open spec fn log_line(stamp: Seq<char>, message: Seq<char>) -> Seq<char> {
    stamp + "  INFO agent_runner: "@ + message
}

/// One time-stamped marker line for the shared output log, formatted like a log
/// line of the program.
pub fn marker_line(stamp: &str, message: &str) -> (r: String)
    ensures
        r@ == log_line(stamp@, message@),
{
    let mut s = stamp.to_owned();
    s.append("  INFO agent_runner: ");
    s.append(message);
    s
}

} // verus!
