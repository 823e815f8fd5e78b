//! Timestamps: the UTC date and time of a count of seconds since 1970-01-01, as the import
//! log and the account records write them.
use vstd::prelude::*;

use crate::text::{decimal, decimal_string, digit, push_char, push_str};

verus! {

/// A leap year of the Gregorian calendar.
pub open spec fn leap(y: nat) -> bool {
    (y % 4 == 0 && y % 100 != 0) || y % 400 == 0
}

/// The days in year `y`.
pub open spec fn year_days(y: nat) -> nat {
    if leap(y) {
        366
    } else {
        365
    }
}

/// The days in month `m` (1 to 12) of year `y`.
pub open spec fn month_days(y: nat, m: nat) -> nat {
    if m == 2 {
        if leap(y) {
            29
        } else {
            28
        }
    } else if m == 4 || m == 6 || m == 9 || m == 11 {
        30
    } else {
        31
    }
}

/// The month and day of the month of day `d` (from 0) of year `y`, counting from month `m`.
pub open spec fn month_of(y: nat, m: nat, d: nat) -> (nat, nat)
    decreases 12 - m,
{
    if m >= 12 || d < month_days(y, m) {
        (m, d + 1)
    } else {
        month_of(y, m + 1, (d - month_days(y, m)) as nat)
    }
}

/// The year, month and day of the month of day `d` (from 0) counted from the start of year `y`.
pub open spec fn date_of(y: nat, d: nat) -> (nat, nat, nat)
    decreases d,
{
    if d < year_days(y) {
        let (m, day) = month_of(y, 1, d);
        (y, m, day)
    } else {
        date_of(y + 1, (d - year_days(y)) as nat)
    }
}

/// A number in at least two digits.
pub open spec fn two_digits(n: nat) -> Seq<char> {
    if n < 10 {
        seq![digit(0)] + decimal(n)
    } else {
        decimal(n)
    }
}

/// `YYYY-MM-DDTHH:MM:SSZ` for `secs` seconds after 1970-01-01T00:00:00Z.
pub open spec fn spec_timestamp(secs: nat) -> Seq<char> {
    let (y, m, d) = date_of(1970, secs / 86400);
    let r = secs % 86400;
    decimal(y) + "-"@ + two_digits(m) + "-"@ + two_digits(d) + "T"@ + two_digits(r / 3600) + ":"@
        + two_digits((r % 3600) / 60) + ":"@ + two_digits(r % 60) + "Z"@
}

fn is_leap(y: u64) -> (r: bool)
    ensures
        r == leap(y as nat),
{
    (y % 4 == 0 && y % 100 != 0) || y % 400 == 0
}

fn days_in_year(y: u64) -> (r: u64)
    ensures
        r == year_days(y as nat),
{
    if is_leap(y) {
        366
    } else {
        365
    }
}

fn days_in_month(y: u64, m: u64) -> (r: u64)
    ensures
        r == month_days(y as nat, m as nat),
{
    if m == 2 {
        if is_leap(y) {
            29
        } else {
            28
        }
    } else if m == 4 || m == 6 || m == 9 || m == 11 {
        30
    } else {
        31
    }
}

fn push_two_digits(out: &mut String, n: u64)
    ensures
        final(out)@ == old(out)@ + two_digits(n as nat),
{
    if n < 10 {
        push_char(out, '0');
        assert(digit(0) == '0');
    }
    let t = decimal_string(n);
    push_str(out, t.as_str());
}

/// The timestamp of `secs` seconds after 1970-01-01T00:00:00Z.
pub fn timestamp(secs: u64) -> (r: String)
    ensures
        r@ == spec_timestamp(secs as nat),
{
    let days = secs / 86400;
    let rem = secs % 86400;
    let mut y: u64 = 1970;
    let mut d: u64 = days;
    while d >= days_in_year(y)
        invariant
            date_of(1970, days as nat) == date_of(y as nat, d as nat),
            y - 1970 <= days - d,
            d <= days,
            days <= u64::MAX / 86400,
            y >= 1970,
        decreases d,
    {
        d = d - days_in_year(y);
        y = y + 1;
    }
    let mut m: u64 = 1;
    while m < 12 && d >= days_in_month(y, m)
        invariant
            1 <= m <= 12,
            d < 366,
            date_of(1970, days as nat) == (y as nat, month_of(y as nat, m as nat, d as nat).0,
                month_of(y as nat, m as nat, d as nat).1),
        decreases 12 - m,
    {
        d = d - days_in_month(y, m);
        m = m + 1;
    }
    let day = d + 1;
    let mut out = decimal_string(y);
    push_str(&mut out, "-");
    push_two_digits(&mut out, m);
    push_str(&mut out, "-");
    push_two_digits(&mut out, day);
    push_str(&mut out, "T");
    push_two_digits(&mut out, rem / 3600);
    push_str(&mut out, ":");
    push_two_digits(&mut out, (rem % 3600) / 60);
    push_str(&mut out, ":");
    push_two_digits(&mut out, rem % 60);
    push_str(&mut out, "Z");
    out
}

} // verus!
