//! Formatting a Unix timestamp under a date/time format string, entirely in
//! verified code: the proleptic Gregorian calendar walked from 1970 on.

use vstd::prelude::*;

use crate::rustgen_error::{ErrorKind, RustgenError, RustgenResult};
use crate::template::TimeHelper;
use crate::text::{append_chars, chars_to_string, dec_nat_spec, str_to_chars, u64_to_dec};

verus! {

pub open spec fn is_leap_year(y: int) -> bool {
    y % 4 == 0 && (y % 100 != 0 || y % 400 == 0)
}

pub open spec fn days_in_year(y: int) -> int {
    if is_leap_year(y) {
        366
    } else {
        365
    }
}

pub open spec fn days_in_month(y: int, m: int) -> int {
    if m == 2 {
        if is_leap_year(y) {
            29
        } else {
            28
        }
    } else if m == 4 || m == 6 || m == 9 || m == 11 {
        30
    } else {
        31
    }
}

/// Walks whole years from `y` on, consuming `rem` days: the pair of the year
/// that the remaining days fall into and the day offset inside that year.
pub open spec fn split_year(y: int, rem: nat) -> (int, nat)
    decreases rem,
{
    if rem >= days_in_year(y) {
        split_year(y + 1, (rem - days_in_year(y)) as nat)
    } else {
        (y, rem)
    }
}

/// Walks whole months of year `y` from month `m` on, consuming `rem` days:
/// the pair of month and day offset inside that month.
pub open spec fn split_month(y: int, m: int, rem: nat) -> (int, nat)
    decreases 12 - m,
{
    if m < 12 && rem >= days_in_month(y, m) {
        split_month(y, m + 1, (rem - days_in_month(y, m)) as nat)
    } else {
        (m, rem)
    }
}

/// The calendar year that day number `days` (counted from the epoch) falls into.
pub open spec fn year_of_days(days: nat) -> int {
    split_year(1970, days).0
}

/// The month (1 to 12) that day number `days` falls into.
pub open spec fn month_of_days(days: nat) -> int {
    split_month(year_of_days(days), 1, split_year(1970, days).1).0
}

/// The day of the month (1 to 31) of day number `days`.
pub open spec fn day_of_days(days: nat) -> int {
    split_month(year_of_days(days), 1, split_year(1970, days).1).1 as int + 1
}

/// The year that day number `days` falls into, together with the day offset
/// inside that year.
pub fn year_rem_from_days(days: u64) -> (r: (u64, u64))
    ensures
        r.0 as int == year_of_days(days as nat),
        r.1 as nat == split_year(1970, days as nat).1,
        1970 <= r.0,
        r.1 <= 365,
{
    let mut y: u64 = 1970;
    let mut rem: u64 = days;
    let mut diy = days_in_year_exec(y);
    while rem >= diy
        invariant
            1970 <= y,
            (y - 1970) * 365 <= days - rem,
            rem <= days,
            diy as int == days_in_year(y as int),
            split_year(1970, days as nat) == split_year(y as int, rem as nat),
        decreases rem,
    {
        proof {
            assert((y + 1 - 1970) * 365 == (y - 1970) * 365 + 365);
        }
        rem = rem - diy;
        y = y + 1;
        diy = days_in_year_exec(y);
    }
    proof {
        assert(split_year(y as int, rem as nat) == (y as int, rem as nat));
    }
    (y, rem)
}

/// The calendar date (year, month, day) of the day numbered `days` from the
/// Unix epoch.
pub fn civil_from_days(days: u64) -> (r: (u64, u64, u64))
    ensures
        r.0 as int == year_of_days(days as nat),
        r.1 as int == month_of_days(days as nat),
        r.2 as int == day_of_days(days as nat),
{
    let (y, mut rem) = year_rem_from_days(days);
    let mut m: u64 = 1;
    while m < 12 && rem >= days_in_month_exec(y, m)
        invariant
            1 <= m <= 12,
            rem <= 365,
            split_month(y as int, 1, split_year(1970, days as nat).1) == split_month(
                y as int,
                m as int,
                rem as nat,
            ),
        decreases 12 - m,
    {
        rem = rem - days_in_month_exec(y, m);
        m = m + 1;
    }
    proof {
        assert(split_month(y as int, m as int, rem as nat) == (m as int, rem as nat));
    }
    (y, m, rem + 1)
}

/// The number of days in year `y`.
pub fn days_in_year_exec(y: u64) -> (r: u64)
    ensures
        r as int == days_in_year(y as int),
{
    if is_leap(y) {
        366
    } else {
        365
    }
}

/// Whether `y` is a leap year.
pub fn is_leap(y: u64) -> (r: bool)
    ensures
        r == is_leap_year(y as int),
{
    y % 4 == 0 && (y % 100 != 0 || y % 400 == 0)
}

/// The number of days in month `m` of year `y`.
pub fn days_in_month_exec(y: u64, m: u64) -> (r: u64)
    ensures
        r as int == days_in_month(y as int, m as int),
{
    if m == 2 {
        if is_leap(y) {
            29
        } else {
            28
        }
    } else if m == 4 || m == 6 || m == 9 || m == 11 {
        30
    } else {
        31
    }
}

/// `n` in decimal, left-padded with zeros to at least two digits.
pub open spec fn pad2(n: nat) -> Seq<char> {
    if n < 10 {
        seq!['0'] + dec_nat_spec(n)
    } else {
        dec_nat_spec(n)
    }
}

/// `n` in decimal, left-padded with zeros to at least four digits.
pub open spec fn pad4(n: nat) -> Seq<char> {
    if n < 10 {
        seq!['0', '0', '0'] + dec_nat_spec(n)
    } else if n < 100 {
        seq!['0', '0'] + dec_nat_spec(n)
    } else if n < 1000 {
        seq!['0'] + dec_nat_spec(n)
    } else {
        dec_nat_spec(n)
    }
}


/// The day of the year (1 to 366) of day number `days`.
pub open spec fn yday_of_days(days: nat) -> int {
    split_year(1970, days).1 as int + 1
}

/// The day of the week of day number `days`, with 0 standing for Sunday
/// (the epoch day, number 0, was a Thursday).
pub open spec fn wday_of_days(days: nat) -> int {
    ((days + 4) % 7) as int
}

/// The hour on the twelve-hour clock for hour `h` of the day.
pub open spec fn hour12_of(h: int) -> int {
    if h % 12 == 0 {
        12
    } else {
        h % 12
    }
}

/// `n` in decimal, left-padded with zeros to at least three digits.
pub open spec fn pad3(n: nat) -> Seq<char> {
    if n < 10 {
        seq!['0', '0'] + dec_nat_spec(n)
    } else if n < 100 {
        seq!['0'] + dec_nat_spec(n)
    } else {
        dec_nat_spec(n)
    }
}

/// `n` in decimal, left-padded with spaces to at least two digits.
pub open spec fn pad2_space(n: nat) -> Seq<char> {
    if n < 10 {
        seq![' '] + dec_nat_spec(n)
    } else {
        dec_nat_spec(n)
    }
}

/// The abbreviated English name of month `m` (1 to 12).
pub open spec fn month_abbr(m: int) -> Seq<char> {
    if m == 1 {
        "Jan"@
    } else if m == 2 {
        "Feb"@
    } else if m == 3 {
        "Mar"@
    } else if m == 4 {
        "Apr"@
    } else if m == 5 {
        "May"@
    } else if m == 6 {
        "Jun"@
    } else if m == 7 {
        "Jul"@
    } else if m == 8 {
        "Aug"@
    } else if m == 9 {
        "Sep"@
    } else if m == 10 {
        "Oct"@
    } else if m == 11 {
        "Nov"@
    } else {
        "Dec"@
    }
}

/// The full English name of month `m` (1 to 12).
pub open spec fn month_name(m: int) -> Seq<char> {
    if m == 1 {
        "January"@
    } else if m == 2 {
        "February"@
    } else if m == 3 {
        "March"@
    } else if m == 4 {
        "April"@
    } else if m == 5 {
        "May"@
    } else if m == 6 {
        "June"@
    } else if m == 7 {
        "July"@
    } else if m == 8 {
        "August"@
    } else if m == 9 {
        "September"@
    } else if m == 10 {
        "October"@
    } else if m == 11 {
        "November"@
    } else {
        "December"@
    }
}

/// The abbreviated English name of weekday `w` (0 standing for Sunday).
pub open spec fn wday_abbr(w: int) -> Seq<char> {
    if w == 0 {
        "Sun"@
    } else if w == 1 {
        "Mon"@
    } else if w == 2 {
        "Tue"@
    } else if w == 3 {
        "Wed"@
    } else if w == 4 {
        "Thu"@
    } else if w == 5 {
        "Fri"@
    } else {
        "Sat"@
    }
}

/// The full English name of weekday `w` (0 standing for Sunday).
pub open spec fn wday_name(w: int) -> Seq<char> {
    if w == 0 {
        "Sunday"@
    } else if w == 1 {
        "Monday"@
    } else if w == 2 {
        "Tuesday"@
    } else if w == 3 {
        "Wednesday"@
    } else if w == 4 {
        "Thursday"@
    } else if w == 5 {
        "Friday"@
    } else {
        "Saturday"@
    }
}

/// The text that one format specifier produces for the timestamp `now`,
/// or nothing when the specifier is not supported.
pub open spec fn piece_spec(now: u64, code: char) -> Option<Seq<char>> {
    let days = (now as int / 86400) as nat;
    let secs = now as int % 86400;
    if code == 'Y' {
        Some(pad4(year_of_days(days) as nat))
    } else if code == 'm' {
        Some(pad2(month_of_days(days) as nat))
    } else if code == 'd' {
        Some(pad2(day_of_days(days) as nat))
    } else if code == 'H' {
        Some(pad2((secs / 3600) as nat))
    } else if code == 'M' {
        Some(pad2((secs / 60 % 60) as nat))
    } else if code == 'S' {
        Some(pad2((secs % 60) as nat))
    } else if code == 'F' {
        Some(
            pad4(year_of_days(days) as nat) + seq!['-'] + pad2(month_of_days(days) as nat)
                + seq!['-'] + pad2(day_of_days(days) as nat),
        )
    } else if code == 'T' {
        Some(
            pad2((secs / 3600) as nat) + seq![':'] + pad2((secs / 60 % 60) as nat) + seq![':']
                + pad2((secs % 60) as nat),
        )
    } else if code == 'y' {
        Some(pad2((year_of_days(days) % 100) as nat))
    } else if code == 'C' {
        Some(pad2((year_of_days(days) / 100) as nat))
    } else if code == 'e' {
        Some(pad2_space(day_of_days(days) as nat))
    } else if code == 'k' {
        Some(pad2_space((secs / 3600) as nat))
    } else if code == 'j' {
        Some(pad3(yday_of_days(days) as nat))
    } else if code == 'b' || code == 'h' {
        Some(month_abbr(month_of_days(days)))
    } else if code == 'B' {
        Some(month_name(month_of_days(days)))
    } else if code == 'a' {
        Some(wday_abbr(wday_of_days(days)))
    } else if code == 'A' {
        Some(wday_name(wday_of_days(days)))
    } else if code == 'u' {
        Some(
            dec_nat_spec(
                if wday_of_days(days) == 0 {
                    7 as nat
                } else {
                    wday_of_days(days) as nat
                },
            ),
        )
    } else if code == 'w' {
        Some(dec_nat_spec(wday_of_days(days) as nat))
    } else if code == 'I' {
        Some(pad2(hour12_of(secs / 3600) as nat))
    } else if code == 'l' {
        Some(pad2_space(hour12_of(secs / 3600) as nat))
    } else if code == 'p' {
        Some(
            if secs / 3600 < 12 {
                "AM"@
            } else {
                "PM"@
            },
        )
    } else if code == 'D' {
        Some(
            pad2(month_of_days(days) as nat) + seq!['/'] + pad2(day_of_days(days) as nat)
                + seq!['/'] + pad2((year_of_days(days) % 100) as nat),
        )
    } else if code == 'R' {
        Some(pad2((secs / 3600) as nat) + seq![':'] + pad2((secs / 60 % 60) as nat))
    } else if code == 'n' {
        Some(seq!['\n'])
    } else if code == 't' {
        Some(seq!['\t'])
    } else if code == 's' {
        Some(dec_nat_spec(now as nat))
    } else if code == '%' {
        Some(seq!['%'])
    } else {
        None
    }
}

/// The timestamp `now` formatted under `fmt`: literal characters are copied,
/// `%` introduces a specifier; an unsupported specifier, or a `%` at the very
/// end, makes the whole format fail.
pub open spec fn format_time_spec(now: u64, fmt: Seq<char>) -> Option<Seq<char>>
    decreases fmt.len(),
{
    if fmt.len() == 0 {
        Some(Seq::empty())
    } else if fmt[0] == '%' {
        if fmt.len() < 2 {
            None
        } else {
            match piece_spec(now, fmt[1]) {
                Some(p) => match format_time_spec(now, fmt.skip(2)) {
                    Some(rest) => Some(p + rest),
                    None => None,
                },
                None => None,
            }
        }
    } else {
        match format_time_spec(now, fmt.skip(1)) {
            Some(rest) => Some(seq![fmt[0]] + rest),
            None => None,
        }
    }
}

/// `n` in decimal, zero-padded to at least two digits.
pub fn pad2_exec(n: u64) -> (r: Vec<char>)
    ensures
        r@ == pad2(n as nat),
{
    let mut r: Vec<char> = Vec::new();
    if n < 10 {
        r.push('0');
    }
    let digits = u64_to_dec(n);
    append_chars(&mut r, &digits);
    proof {
        if n < 10 {
            assert(r@ =~= seq!['0'] + dec_nat_spec(n as nat));
        } else {
            assert(r@ =~= dec_nat_spec(n as nat));
        }
    }
    r
}

/// `n` in decimal, zero-padded to at least four digits.
pub fn pad4_exec(n: u64) -> (r: Vec<char>)
    ensures
        r@ == pad4(n as nat),
{
    let mut r: Vec<char> = Vec::new();
    if n < 10 {
        r.push('0');
        r.push('0');
        r.push('0');
    } else if n < 100 {
        r.push('0');
        r.push('0');
    } else if n < 1000 {
        r.push('0');
    }
    let digits = u64_to_dec(n);
    append_chars(&mut r, &digits);
    proof {
        if n < 10 {
            assert(r@ =~= seq!['0', '0', '0'] + dec_nat_spec(n as nat));
        } else if n < 100 {
            assert(r@ =~= seq!['0', '0'] + dec_nat_spec(n as nat));
        } else if n < 1000 {
            assert(r@ =~= seq!['0'] + dec_nat_spec(n as nat));
        } else {
            assert(r@ =~= dec_nat_spec(n as nat));
        }
    }
    r
}


/// `n` in decimal, zero-padded to at least three digits.
pub fn pad3_exec(n: u64) -> (r: Vec<char>)
    ensures
        r@ == pad3(n as nat),
{
    let mut r: Vec<char> = Vec::new();
    if n < 10 {
        r.push('0');
        r.push('0');
    } else if n < 100 {
        r.push('0');
    }
    let digits = u64_to_dec(n);
    append_chars(&mut r, &digits);
    proof {
        if n < 10 {
            assert(r@ =~= seq!['0', '0'] + dec_nat_spec(n as nat));
        } else if n < 100 {
            assert(r@ =~= seq!['0'] + dec_nat_spec(n as nat));
        } else {
            assert(r@ =~= dec_nat_spec(n as nat));
        }
    }
    r
}

/// `n` in decimal, space-padded to at least two digits.
pub fn pad2_space_exec(n: u64) -> (r: Vec<char>)
    ensures
        r@ == pad2_space(n as nat),
{
    let mut r: Vec<char> = Vec::new();
    if n < 10 {
        r.push(' ');
    }
    let digits = u64_to_dec(n);
    append_chars(&mut r, &digits);
    proof {
        if n < 10 {
            assert(r@ =~= seq![' '] + dec_nat_spec(n as nat));
        } else {
            assert(r@ =~= dec_nat_spec(n as nat));
        }
    }
    r
}

/// The abbreviated English name of month `m`.
pub fn month_abbr_exec(m: u64) -> (r: Vec<char>)
    ensures
        r@ == month_abbr(m as int),
{
    if m == 1 {
        str_to_chars("Jan")
    } else if m == 2 {
        str_to_chars("Feb")
    } else if m == 3 {
        str_to_chars("Mar")
    } else if m == 4 {
        str_to_chars("Apr")
    } else if m == 5 {
        str_to_chars("May")
    } else if m == 6 {
        str_to_chars("Jun")
    } else if m == 7 {
        str_to_chars("Jul")
    } else if m == 8 {
        str_to_chars("Aug")
    } else if m == 9 {
        str_to_chars("Sep")
    } else if m == 10 {
        str_to_chars("Oct")
    } else if m == 11 {
        str_to_chars("Nov")
    } else {
        str_to_chars("Dec")
    }
}

/// The full English name of month `m`.
pub fn month_name_exec(m: u64) -> (r: Vec<char>)
    ensures
        r@ == month_name(m as int),
{
    if m == 1 {
        str_to_chars("January")
    } else if m == 2 {
        str_to_chars("February")
    } else if m == 3 {
        str_to_chars("March")
    } else if m == 4 {
        str_to_chars("April")
    } else if m == 5 {
        str_to_chars("May")
    } else if m == 6 {
        str_to_chars("June")
    } else if m == 7 {
        str_to_chars("July")
    } else if m == 8 {
        str_to_chars("August")
    } else if m == 9 {
        str_to_chars("September")
    } else if m == 10 {
        str_to_chars("October")
    } else if m == 11 {
        str_to_chars("November")
    } else {
        str_to_chars("December")
    }
}

/// The abbreviated English name of weekday `w` (0 standing for Sunday).
pub fn wday_abbr_exec(w: u64) -> (r: Vec<char>)
    ensures
        r@ == wday_abbr(w as int),
{
    if w == 0 {
        str_to_chars("Sun")
    } else if w == 1 {
        str_to_chars("Mon")
    } else if w == 2 {
        str_to_chars("Tue")
    } else if w == 3 {
        str_to_chars("Wed")
    } else if w == 4 {
        str_to_chars("Thu")
    } else if w == 5 {
        str_to_chars("Fri")
    } else {
        str_to_chars("Sat")
    }
}

/// The full English name of weekday `w` (0 standing for Sunday).
pub fn wday_name_exec(w: u64) -> (r: Vec<char>)
    ensures
        r@ == wday_name(w as int),
{
    if w == 0 {
        str_to_chars("Sunday")
    } else if w == 1 {
        str_to_chars("Monday")
    } else if w == 2 {
        str_to_chars("Tuesday")
    } else if w == 3 {
        str_to_chars("Wednesday")
    } else if w == 4 {
        str_to_chars("Thursday")
    } else if w == 5 {
        str_to_chars("Friday")
    } else {
        str_to_chars("Saturday")
    }
}

/// The text for one format specifier, or `None` for an unsupported one.
pub fn piece_exec(now: u64, code: char) -> (r: Option<Vec<char>>)
    ensures
        match r {
            Some(p) => piece_spec(now, code) == Some(p@),
            None => piece_spec(now, code) is None,
        },
{
    let days: u64 = now / 86400;
    let secs: u64 = now % 86400;
    if code == 'Y' {
        let (y, _, _) = civil_from_days(days);
        Some(pad4_exec(y))
    } else if code == 'm' {
        let (_, m, _) = civil_from_days(days);
        Some(pad2_exec(m))
    } else if code == 'd' {
        let (_, _, d) = civil_from_days(days);
        Some(pad2_exec(d))
    } else if code == 'H' {
        Some(pad2_exec(secs / 3600))
    } else if code == 'M' {
        Some(pad2_exec(secs / 60 % 60))
    } else if code == 'S' {
        Some(pad2_exec(secs % 60))
    } else if code == 'F' {
        let (y, m, d) = civil_from_days(days);
        let mut out = pad4_exec(y);
        out.push('-');
        let mm = pad2_exec(m);
        append_chars(&mut out, &mm);
        out.push('-');
        let dd = pad2_exec(d);
        append_chars(&mut out, &dd);
        proof {
            assert(out@ =~= pad4(year_of_days(days as nat) as nat) + seq!['-'] + pad2(
                month_of_days(days as nat) as nat,
            ) + seq!['-'] + pad2(day_of_days(days as nat) as nat));
        }
        Some(out)
    } else if code == 'T' {
        let mut out = pad2_exec(secs / 3600);
        out.push(':');
        let mm = pad2_exec(secs / 60 % 60);
        append_chars(&mut out, &mm);
        out.push(':');
        let ss = pad2_exec(secs % 60);
        append_chars(&mut out, &ss);
        proof {
            assert(out@ =~= pad2((now as int % 86400 / 3600) as nat) + seq![':'] + pad2(
                (now as int % 86400 / 60 % 60) as nat,
            ) + seq![':'] + pad2((now as int % 86400 % 60) as nat));
        }
        Some(out)
    } else if code == 'y' {
        let (y, _, _) = civil_from_days(days);
        Some(pad2_exec(y % 100))
    } else if code == 'C' {
        let (y, _, _) = civil_from_days(days);
        Some(pad2_exec(y / 100))
    } else if code == 'e' {
        let (_, _, d) = civil_from_days(days);
        Some(pad2_space_exec(d))
    } else if code == 'k' {
        Some(pad2_space_exec(secs / 3600))
    } else if code == 'j' {
        let (_, rem) = year_rem_from_days(days);
        Some(pad3_exec(rem + 1))
    } else if code == 'b' || code == 'h' {
        let (_, m, _) = civil_from_days(days);
        Some(month_abbr_exec(m))
    } else if code == 'B' {
        let (_, m, _) = civil_from_days(days);
        Some(month_name_exec(m))
    } else if code == 'a' {
        Some(wday_abbr_exec((days + 4) % 7))
    } else if code == 'A' {
        Some(wday_name_exec((days + 4) % 7))
    } else if code == 'u' {
        let w = (days + 4) % 7;
        Some(u64_to_dec(if w == 0 { 7 } else { w }))
    } else if code == 'w' {
        Some(u64_to_dec((days + 4) % 7))
    } else if code == 'I' {
        let h = secs / 3600;
        Some(pad2_exec(if h % 12 == 0 { 12 } else { h % 12 }))
    } else if code == 'l' {
        let h = secs / 3600;
        Some(pad2_space_exec(if h % 12 == 0 { 12 } else { h % 12 }))
    } else if code == 'p' {
        if secs / 3600 < 12 {
            Some(str_to_chars("AM"))
        } else {
            Some(str_to_chars("PM"))
        }
    } else if code == 'D' {
        let (y, m, d) = civil_from_days(days);
        let mut out = pad2_exec(m);
        out.push('/');
        let dd = pad2_exec(d);
        append_chars(&mut out, &dd);
        out.push('/');
        let yy = pad2_exec(y % 100);
        append_chars(&mut out, &yy);
        proof {
            assert(out@ =~= pad2(month_of_days(days as nat) as nat) + seq!['/'] + pad2(
                day_of_days(days as nat) as nat,
            ) + seq!['/'] + pad2((year_of_days(days as nat) % 100) as nat));
        }
        Some(out)
    } else if code == 'R' {
        let mut out = pad2_exec(secs / 3600);
        out.push(':');
        let mm = pad2_exec(secs / 60 % 60);
        append_chars(&mut out, &mm);
        proof {
            assert(out@ =~= pad2((now as int % 86400 / 3600) as nat) + seq![':'] + pad2(
                (now as int % 86400 / 60 % 60) as nat,
            ));
        }
        Some(out)
    } else if code == 'n' {
        let mut out: Vec<char> = Vec::new();
        out.push('\n');
        proof {
            assert(out@ =~= seq!['\n']);
        }
        Some(out)
    } else if code == 't' {
        let mut out: Vec<char> = Vec::new();
        out.push('\t');
        proof {
            assert(out@ =~= seq!['\t']);
        }
        Some(out)
    } else if code == 's' {
        Some(u64_to_dec(now))
    } else if code == '%' {
        let mut out: Vec<char> = Vec::new();
        out.push('%');
        proof {
            assert(out@ =~= seq!['%']);
        }
        Some(out)
    } else {
        None
    }
}

/// Formats the timestamp `now` under the format characters `fmt`.
pub fn format_time_chars(now: u64, fmt: &Vec<char>) -> (r: Option<Vec<char>>)
    ensures
        match r {
            Some(out) => format_time_spec(now, fmt@) == Some(out@),
            None => format_time_spec(now, fmt@) is None,
        },
{
    let mut out: Vec<char> = Vec::new();
    let mut i: usize = 0;
    proof {
        assert(fmt@.skip(0) =~= fmt@);
    }
    while i < fmt.len()
        invariant
            i <= fmt@.len(),
            match format_time_spec(now, fmt@) {
                Some(whole) => format_time_spec(now, fmt@.skip(i as int)) matches Some(rest)
                    && whole == out@ + rest,
                None => format_time_spec(now, fmt@.skip(i as int)) is None,
            } || (format_time_spec(now, fmt@) is None && format_time_spec(
                now,
                fmt@.skip(i as int),
            ) is None),
        decreases fmt@.len() - i,
    {
        let ghost pre = fmt@.skip(i as int);
        if fmt[i] == '%' {
            if i + 1 >= fmt.len() {
                proof {
                    assert(pre[0] == '%' && pre.len() < 2);
                }
                return None;
            }
            match piece_exec(now, fmt[i + 1]) {
                Some(p) => {
                    append_chars(&mut out, &p);
                    proof {
                        assert(pre.skip(2) =~= fmt@.skip(i + 2));
                    }
                    i += 2;
                },
                None => {
                    return None;
                },
            }
        } else {
            out.push(fmt[i]);
            proof {
                assert(pre.skip(1) =~= fmt@.skip(i + 1));
            }
            i += 1;
        }
    }
    proof {
        assert(fmt@.skip(fmt@.len() as int) =~= Seq::<char>::empty());
        if format_time_spec(now, fmt@) is Some {
            assert(format_time_spec(now, fmt@)->Some_0 =~= out@ + Seq::<char>::empty());
        }
    }
    Some(out)
}

impl TimeHelper {
    /// Renders the timestamp `now` under the given format string; fails with a
    /// render error on an unsupported format specifier. Supported are the
    /// date/time specifiers
    /// `%Y %y %C %m %b %h %B %d %e %j %a %A %u %w %H %k %I %l %p %M %S %F %D
    /// %T %R %s %n %t %%`; all times are UTC.
    pub fn call(now: u64, format: &str) -> (r: RustgenResult<String>)
        ensures
            match format_time_spec(now, format@) {
                Some(out) => r matches Ok(s) && s@ == out,
                None => r matches Err(e) && e.kind == ErrorKind::Render,
            },
    {
        let fmt = str_to_chars(format);
        match format_time_chars(now, &fmt) {
            Some(out) => Ok(chars_to_string(&out)),
            None => Err(RustgenError::render_error("unsupported time format specifier")),
        }
    }
}

} // verus!
