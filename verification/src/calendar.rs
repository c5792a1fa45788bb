//! UTC calendar dates for Unix timestamps, as shown for deleted entries.
use vstd::prelude::*;

use crate::text::{chars_of, decimal_text, push_decimal, string_push};

verus! {

/// The era (400-year block) of an adjusted day count: the adjusted count
/// divided by 146 097 with truncation after shifting negative counts down by
/// 146 096, which is floor division.
pub open spec fn era_of(adjusted: int) -> int {
    if adjusted >= 0 {
        adjusted / 146_097
    } else {
        -((146_096 - adjusted) / 146_097)
    }
}

/// The year of the era of a day of the era.
pub open spec fn year_of_era_of(doe: int) -> int {
    (doe - doe / 1_460 + doe / 36_524 - doe / 146_096) / 365
}

/// The day of the year (counted from 1 March) of a day of the era.
pub open spec fn day_of_year_of(doe: int) -> int {
    let yoe = year_of_era_of(doe);
    doe - (365 * yoe + yoe / 4 - yoe / 100)
}

/// The proleptic Gregorian date (year, month, day) of a day count since
/// 1970-01-01, by the era-based civil-from-days conversion.
pub open spec fn civil_of_days(days: int) -> (int, int, int) {
    let adjusted = days + 719_468;
    let era = era_of(adjusted);
    let day_of_era = adjusted - era * 146_097;
    let year_of_era = year_of_era_of(day_of_era);
    let day_of_year = day_of_year_of(day_of_era);
    let month_prime = (5 * day_of_year + 2) / 153;
    let day = day_of_year - (153 * month_prime + 2) / 5 + 1;
    let month = month_prime + if month_prime < 10 { 3int } else { -9int };
    let year = year_of_era + era * 400 + if month <= 2 { 1int } else { 0int };
    (year, month, day)
}

/// Quotient bounds for a non-negative dividend and positive divisor.
proof fn lemma_div_bounds(x: int, d: int)
    requires
        0 <= x,
        0 < d,
    ensures
        0 <= x / d,
        (x / d) * d <= x < (x / d) * d + d,
{
    vstd::arithmetic::div_mod::lemma_fundamental_div_mod(x, d);
    vstd::arithmetic::div_mod::lemma_mod_pos_bound(x, d);
    vstd::arithmetic::div_mod::lemma_div_pos_is_pos(x, d);
    assert(d * (x / d) == (x / d) * d) by (nonlinear_arith);
}

/// The era divides the adjusted day count into whole eras and a day of the
/// era from 0 to 146 096.
proof fn lemma_era_bounds(adjusted: int)
    requires
        i64::MIN + 146_096 <= adjusted <= i64::MAX,
    ensures
        0 <= adjusted - era_of(adjusted) * 146_097 <= 146_096,
        -100_000_000_000_000 <= era_of(adjusted) <= 100_000_000_000_000,
{
    if adjusted >= 0 {
        lemma_div_bounds(adjusted, 146_097);
    } else {
        lemma_div_bounds(146_096 - adjusted, 146_097);
    }
}

/// Within an era, the year of the era is 0 to 399 and the day of the year
/// 0 to 365.
proof fn lemma_day_of_year_bounds(doe: int)
    requires
        0 <= doe <= 146_096,
    ensures
        0 <= year_of_era_of(doe) <= 399,
        0 <= day_of_year_of(doe) <= 365,
{
    lemma_div_bounds(doe, 1_460);
    lemma_div_bounds(doe, 36_524);
    lemma_div_bounds(doe, 146_096);
    let a = doe / 1_460;
    let b = doe / 36_524;
    let c = doe / 146_096;
    let n = doe - a + b - c;
    assert(0 <= n <= 146_096);
    lemma_div_bounds(n, 365);
    let yoe = n / 365;
    assert(yoe == year_of_era_of(doe));
    lemma_div_bounds(yoe, 4);
    lemma_div_bounds(yoe, 100);
}

/// A day of the year from 0 (1 March) to 365 gives a month from 1 to 12 and
/// a day of the month from 1 to 31.
proof fn lemma_month_day_bounds(doy: int)
    requires
        0 <= doy <= 365,
    ensures
        0 <= (5 * doy + 2) / 153 <= 11,
        1 <= doy - (153 * ((5 * doy + 2) / 153) + 2) / 5 + 1 <= 31,
{
    lemma_div_bounds(5 * doy + 2, 153);
    let mp = (5 * doy + 2) / 153;
    lemma_div_bounds(153 * mp + 2, 5);
}

/// Converts a day count since 1970-01-01 to a (year, month, day) date.
pub fn civil_from_days(days_since_unix_epoch: i64) -> (ymd: (i64, u32, u32))
    requires
        i64::MIN + 146_096 - 719_468 <= days_since_unix_epoch <= i64::MAX - 719_468,
    ensures
        (ymd.0 as int, ymd.1 as int, ymd.2 as int) == civil_of_days(days_since_unix_epoch as int),
        1 <= ymd.1 <= 12,
        1 <= ymd.2 <= 31,
{
    let adjusted: i64 = days_since_unix_epoch + 719_468;
    proof {
        lemma_era_bounds(adjusted as int);
    }
    let era: i64 = if adjusted >= 0 { adjusted } else { adjusted - 146_096 } / 146_097;
    assert(era as int == era_of(adjusted as int));
    let day_of_era: i64 = adjusted - era * 146_097;
    proof {
        lemma_day_of_year_bounds(day_of_era as int);
    }
    let year_of_era: i64 = (day_of_era - day_of_era / 1_460 + day_of_era / 36_524 - day_of_era / 146_096) / 365;
    assert(year_of_era as int == year_of_era_of(day_of_era as int));
    let day_of_year: i64 = day_of_era - (365 * year_of_era + year_of_era / 4 - year_of_era / 100);
    assert(day_of_year as int == day_of_year_of(day_of_era as int));
    proof {
        lemma_month_day_bounds(day_of_year as int);
    }
    let month_prime: i64 = (5 * day_of_year + 2) / 153;
    let day: i64 = day_of_year - (153 * month_prime + 2) / 5 + 1;
    let month: i64 = month_prime + if month_prime < 10 { 3 } else { -9 };
    let mut year: i64 = year_of_era + era * 400;
    if month <= 2 {
        year = year + 1;
    }
    (year, month as u32, day as u32)
}

/// The decimal rendering of `n`, left-padded with zeros to `width` characters.
pub open spec fn padded_decimal(n: nat, width: nat) -> Seq<char> {
    let t = decimal_text(n);
    if t.len() >= width {
        t
    } else {
        Seq::new((width - t.len()) as nat, |i: int| '0') + t
    }
}

/// Appends `n` in decimal, left-padded with zeros to `width` characters.
fn push_padded(s: &mut String, n: u64, width: usize)
    ensures
        final(s)@ == old(s)@ + padded_decimal(n as nat, width as nat),
{
    let mut digits = String::new();
    push_decimal(&mut digits, n);
    assert(digits@ =~= decimal_text(n as nat));
    let len = chars_of(digits.as_str()).len();
    let ghost start = s@;
    if len < width {
        let mut k: usize = len;
        while k < width
            invariant
                len <= k <= width,
                s@ == start + Seq::new((k - len) as nat, |i: int| '0'),
            decreases width - k,
        {
            string_push(s, '0');
            k = k + 1;
            assert(s@ =~= start + Seq::new((k - len) as nat, |i: int| '0'));
        }
    }
    s.append(digits.as_str());
    assert(s@ =~= start + padded_decimal(n as nat, width as nat));
}

/// The text shown for a timestamp: `YYYY-MM-DD hh:mm:ss UTC`.
pub open spec fn timestamp_text(timestamp: nat) -> Seq<char> {
    let (year, month, day) = civil_of_days((timestamp / 86_400) as int);
    let secs = timestamp % 86_400;
    padded_decimal(year as nat, 4) + "-"@ + padded_decimal(month as nat, 2) + "-"@ + padded_decimal(day as nat, 2)
        + " "@ + padded_decimal(secs / 3_600, 2) + ":"@ + padded_decimal((secs % 3_600) / 60, 2) + ":"@
        + padded_decimal(secs % 60, 2) + " UTC"@
}

/// Renders a Unix timestamp as a UTC date and time.
pub fn format_unix_timestamp(timestamp: u64) -> (text: String)
    ensures
        text@ == timestamp_text(timestamp as nat),
{
    let days: i64 = (timestamp / 86_400) as i64;
    let seconds_of_day = timestamp % 86_400;
    let hour = seconds_of_day / 3_600;
    let minute = (seconds_of_day % 3_600) / 60;
    let second = seconds_of_day % 60;
    let (year, month, day) = civil_from_days(days);
    proof {
        lemma_civil_year_positive(days as int);
    }
    let mut text = String::new();
    push_padded(&mut text, year as u64, 4);
    text.append("-");
    push_padded(&mut text, month as u64, 2);
    text.append("-");
    push_padded(&mut text, day as u64, 2);
    text.append(" ");
    push_padded(&mut text, hour, 2);
    text.append(":");
    push_padded(&mut text, minute, 2);
    text.append(":");
    push_padded(&mut text, second, 2);
    text.append(" UTC");
    text
}

/// Days at or after the epoch fall in years after 1900.
proof fn lemma_civil_year_positive(days: int)
    requires
        0 <= days <= 1_000_000_000_000_000,
    ensures
        civil_of_days(days).0 > 0,
{
    let adjusted = days + 719_468;
    lemma_div_bounds(adjusted, 146_097);
    lemma_era_bounds(adjusted);
    lemma_day_of_year_bounds(adjusted - era_of(adjusted) * 146_097);
}

} // verus!
