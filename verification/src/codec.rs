//! Timestamp codec: UTC date-time strings of the form
//! `YYYY-MM-DDThh:mm:ss[.fraction]Z` decoded to seconds since the Unix epoch,
//! with the calendar arithmetic done here rather than by a platform library.

use vstd::prelude::*;

verus! {

/// A Gregorian leap year: divisible by 4 but not by 100, unless also
/// divisible by 400.
pub open spec fn is_leap_year(y: int) -> bool {
    (y % 4 == 0 && y % 100 != 0) || y % 400 == 0
}

/// Days in the given year.
pub open spec fn days_in_year(y: int) -> int {
    if is_leap_year(y) {
        366
    } else {
        365
    }
}

/// Days in month `m` (1-based) of year `y`.
pub open spec fn days_in_month(m: int, y: int) -> int {
    if m == 2 {
        if is_leap_year(y) {
            29
        } else {
            28
        }
    } else if m == 4 || m == 6 || m == 9 || m == 11 {
        30
    } else {
        31
    }
}

/// Days contributed by every full year from 1970 up to (not including) `y`.
pub open spec fn days_before_year(y: int) -> int
    decreases y,
{
    if y <= 1970 {
        0
    } else {
        days_before_year(y - 1) + days_in_year(y - 1)
    }
}

/// Days contributed by every full month of year `y` before month `m`.
pub open spec fn days_before_month(m: int, y: int) -> int
    decreases m,
{
    if m <= 1 {
        0
    } else {
        days_before_month(m - 1, y) + days_in_month(m - 1, y)
    }
}

/// Days since 1970-01-01 of the calendar date `y-m-d`.
pub open spec fn days_since_epoch(y: int, m: int, d: int) -> int {
    days_before_year(y) + days_before_month(m, y) + (d - 1)
}

/// A calendar date the codec accepts: within the four-digit era starting at
/// the epoch, with the month and the day of month in range.
pub open spec fn valid_date(y: int, m: int, d: int) -> bool {
    1970 <= y <= 9999 && 1 <= m <= 12 && 1 <= d <= days_in_month(m, y)
}

/// A time of day the codec accepts.
pub open spec fn valid_time(h: int, mi: int, s: int) -> bool {
    0 <= h < 24 && 0 <= mi < 60 && 0 <= s < 60
}

/// Seconds since the epoch of the instant `y-m-d h:mi:s` UTC.
pub open spec fn epoch_seconds(y: int, m: int, d: int, h: int, mi: int, s: int) -> int {
    days_since_epoch(y, m, d) * 86400 + h * 3600 + mi * 60 + s
}

/// A decimal digit.
pub open spec fn is_digit(c: char) -> bool {
    48 <= c as u32 <= 57
}

/// The value of a decimal digit.
pub open spec fn dval(c: char) -> int {
    c as u32 - 48
}

/// The shape the codec accepts: `YYYY-MM-DDThh:mm:ssZ`, with an optional
/// non-empty run of fractional-second digits between a `.` and the `Z`.
/// Anything else — in particular any other timezone suffix — is rejected.
pub open spec fn well_formed_iso(s: Seq<char>) -> bool {
    &&& s.len() >= 20
    &&& is_digit(s[0]) && is_digit(s[1]) && is_digit(s[2]) && is_digit(s[3])
    &&& s[4] == '-'
    &&& is_digit(s[5]) && is_digit(s[6])
    &&& s[7] == '-'
    &&& is_digit(s[8]) && is_digit(s[9])
    &&& s[10] == 'T'
    &&& is_digit(s[11]) && is_digit(s[12])
    &&& s[13] == ':'
    &&& is_digit(s[14]) && is_digit(s[15])
    &&& s[16] == ':'
    &&& is_digit(s[17]) && is_digit(s[18])
    &&& if s.len() == 20 {
        s[19] == 'Z'
    } else {
        &&& s[19] == '.'
        &&& s.len() >= 22
        &&& s[s.len() - 1] == 'Z'
        &&& forall|i: int| 20 <= i < s.len() - 1 ==> is_digit(#[trigger] s[i])
    }
}

/// The year field of a well-formed string.
pub open spec fn iso_year(s: Seq<char>) -> int {
    dval(s[0]) * 1000 + dval(s[1]) * 100 + dval(s[2]) * 10 + dval(s[3])
}

/// The month field of a well-formed string.
pub open spec fn iso_month(s: Seq<char>) -> int {
    dval(s[5]) * 10 + dval(s[6])
}

/// The day field of a well-formed string.
pub open spec fn iso_day(s: Seq<char>) -> int {
    dval(s[8]) * 10 + dval(s[9])
}

/// The hour field of a well-formed string.
pub open spec fn iso_hour(s: Seq<char>) -> int {
    dval(s[11]) * 10 + dval(s[12])
}

/// The minute field of a well-formed string.
pub open spec fn iso_minute(s: Seq<char>) -> int {
    dval(s[14]) * 10 + dval(s[15])
}

/// The second field of a well-formed string; fractional digits are ignored.
pub open spec fn iso_second(s: Seq<char>) -> int {
    dval(s[17]) * 10 + dval(s[18])
}

/// What [`parse_iso_date`] returns: the epoch seconds of a well-formed
/// string naming a real calendar date and time, and `None` for anything
/// else.
pub open spec fn parse_iso_spec(s: Seq<char>) -> Option<u64> {
    if well_formed_iso(s) && valid_date(iso_year(s), iso_month(s), iso_day(s)) && valid_time(
        iso_hour(s),
        iso_minute(s),
        iso_second(s),
    ) {
        Some(
            epoch_seconds(
                iso_year(s),
                iso_month(s),
                iso_day(s),
                iso_hour(s),
                iso_minute(s),
                iso_second(s),
            ) as u64,
        )
    } else {
        None
    }
}

fn leap_year(y: u64) -> (r: bool)
    ensures
        r == is_leap_year(y as int),
{
    (y % 4 == 0 && y % 100 != 0) || y % 400 == 0
}

fn year_days(y: u64) -> (r: u64)
    ensures
        r == days_in_year(y as int),
{
    if leap_year(y) {
        366
    } else {
        365
    }
}

fn month_days(m: u64, y: u64) -> (r: u64)
    ensures
        r == days_in_month(m as int, y as int),
{
    if m == 2 {
        if leap_year(y) {
            29
        } else {
            28
        }
    } else if m == 4 || m == 6 || m == 9 || m == 11 {
        30
    } else {
        31
    }
}

/// Reads the digit at position `i`.
fn digit_at(s: &str, i: usize) -> (r: u64)
    requires
        i < s@.len(),
        is_digit(s@[i as int]),
    ensures
        r == dval(s@[i as int]),
        r <= 9,
{
    (s.get_char(i) as u32 as u64) - 48
}

fn check_digit(s: &str, i: usize) -> (r: bool)
    requires
        i < s@.len(),
    ensures
        r == is_digit(s@[i as int]),
{
    let u = s.get_char(i) as u32;
    48 <= u && u <= 57
}

/// Decodes a UTC date-time string such as `2023-08-06T13:23:00.093Z` to
/// seconds since the Unix epoch, computing the Gregorian calendar arithmetic
/// itself.  Returns `None` on any string that is not well formed or does not
/// name a real date and time.
pub fn parse_iso_date(date_time_str: &str) -> (r: Option<u64>)
    ensures
        r == parse_iso_spec(date_time_str@),
{
    let ghost sv = date_time_str@;
    let n = date_time_str.unicode_len();
    if n < 20 {
        return None;
    }
    // Field separators.
    if date_time_str.get_char(4) != '-' || date_time_str.get_char(7) != '-'
        || date_time_str.get_char(10) != 'T' || date_time_str.get_char(13) != ':'
        || date_time_str.get_char(16) != ':' {
        return None;
    }
    // Digit positions of the six fields.
    if !(check_digit(date_time_str, 0) && check_digit(date_time_str, 1) && check_digit(
        date_time_str,
        2,
    ) && check_digit(date_time_str, 3) && check_digit(date_time_str, 5) && check_digit(
        date_time_str,
        6,
    ) && check_digit(date_time_str, 8) && check_digit(date_time_str, 9) && check_digit(
        date_time_str,
        11,
    ) && check_digit(date_time_str, 12) && check_digit(date_time_str, 14) && check_digit(
        date_time_str,
        15,
    ) && check_digit(date_time_str, 17) && check_digit(date_time_str, 18)) {
        return None;
    }
    // Suffix: either a bare `Z`, or `.`, fraction digits, then `Z`.
    if n == 20 {
        if date_time_str.get_char(19) != 'Z' {
            return None;
        }
    } else {
        if date_time_str.get_char(19) != '.' || n < 22 || date_time_str.get_char(n - 1) != 'Z' {
            return None;
        }
        let mut i: usize = 20;
        while i < n - 1
            invariant
                20 <= i <= n - 1,
                n == sv.len(),
                n >= 22,
                sv == date_time_str@,
                forall|j: int| 20 <= j < i ==> is_digit(#[trigger] sv[j]),
            decreases n - 1 - i,
        {
            if !check_digit(date_time_str, i) {
                return None;
            }
            i = i + 1;
        }
    }
    let year = digit_at(date_time_str, 0) * 1000 + digit_at(date_time_str, 1) * 100 + digit_at(
        date_time_str,
        2,
    ) * 10 + digit_at(date_time_str, 3);
    let month = digit_at(date_time_str, 5) * 10 + digit_at(date_time_str, 6);
    let day = digit_at(date_time_str, 8) * 10 + digit_at(date_time_str, 9);
    let hours = digit_at(date_time_str, 11) * 10 + digit_at(date_time_str, 12);
    let minutes = digit_at(date_time_str, 14) * 10 + digit_at(date_time_str, 15);
    let seconds = digit_at(date_time_str, 17) * 10 + digit_at(date_time_str, 18);
    // Field ranges: only real dates and times are accepted.
    if year < 1970 || month < 1 || month > 12 || day < 1 || day > month_days(month, year) || hours
        > 23 || minutes > 59 || seconds > 59 {
        return None;
    }
    let mut days: u64 = 0;
    let mut y: u64 = 1970;
    while y < year
        invariant
            1970 <= y <= year <= 9999,
            days == days_before_year(y as int),
            days <= (y - 1970) * 366,
        decreases year - y,
    {
        days = days + year_days(y);
        y = y + 1;
    }
    let mut m: u64 = 1;
    while m < month
        invariant
            1 <= m <= month <= 12,
            year <= 9999,
            days == days_before_year(year as int) + days_before_month(m as int, year as int),
            days <= (9999 - 1970) * 366 + (m - 1) * 31,
        decreases month - m,
    {
        days = days + month_days(m, year);
        m = m + 1;
    }
    days = days + (day - 1);
    Some(days * 86400 + hours * 3600 + minutes * 60 + seconds)
}

/// In a leap year February 29 is a real date, one day after February 28;
/// decoding it lands exactly 86400 seconds later.
pub proof fn lemma_leap_year_feb_29(y: int, h: int, mi: int, s: int)
    requires
        1970 <= y <= 9999,
        is_leap_year(y),
        valid_time(h, mi, s),
    ensures
        valid_date(y, 2, 29),
        epoch_seconds(y, 2, 29, h, mi, s) == epoch_seconds(y, 2, 28, h, mi, s) + 86400,
{
}

/// In a common year February has no 29th: the codec rejects such a date.
pub proof fn lemma_common_year_no_feb_29(y: int)
    requires
        !is_leap_year(y),
    ensures
        !valid_date(y, 2, 29),
{
}

} // verus!
