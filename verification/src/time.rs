//! Minimal calendar types: a `Date` and a UTC `Timestamp`.
//!
//! The fact schema needs dates as `YYYY-MM-DD` strings and a UTC timestamp
//! for `retrieved_at`. The conversion from a day count to a civil date is a
//! few lines of integer arithmetic (Howard Hinnant's `civil_from_days`),
//! proved here against the calendar of `crate::calendar`.

use vstd::prelude::*;

use crate::calendar::{
    civil_before, date_of_day, day_number, days_before_month, days_before_year, days_in_month,
    is_valid_date, leap_value, lemma_civil_from_era, lemma_date_of_day,
    lemma_date_of_day_year_bound, lemma_day_number_increasing,
    lemma_day_number_injective, lemma_div_bounds, lemma_div_by, lemma_div_step,
};
use crate::text::{padded_int, push_char, push_padded, push_padded_int};

verus! {

/// A calendar date (proleptic Gregorian).
#[derive(Debug, Clone, Copy, PartialEq, Eq, Structural, PartialOrd, Ord, Hash)]
pub struct Date {
    pub year: i32,
    pub month: u8,
    pub day: u8,
}

/// The `Date` value holding the calendar date `t = (year, month, day)`;
/// the year is cut to 32 bits as an `as i32` cast does.
pub open spec fn date_value(t: (int, int, int)) -> Date {
    Date { year: t.0 as i32, month: t.1 as u8, day: t.2 as u8 }
}

/// The date `days` days after 1970-01-01.
pub open spec fn date_from_days(days: int) -> Date {
    date_value(date_of_day(days))
}

/// The day after `d`, as the month lengths of `d.year` give it: the next day
/// of the month, else the first of the next month, else New Year's Day.
pub open spec fn following_day(d: Date) -> Date {
    if (d.day as int) < days_in_month(d.year as int, d.month as int) {
        Date { year: d.year, month: d.month, day: (d.day + 1) as u8 }
    } else if d.month < 12 {
        Date { year: d.year, month: (d.month + 1) as u8, day: 1 }
    } else {
        Date { year: (d.year + 1) as i32, month: 1, day: 1 }
    }
}

/// `YYYY-MM-DD` (the year zero-padded to four characters after its sign).
pub open spec fn iso_date(d: Date) -> Seq<char> {
    padded_int(d.year as int, 4) + seq!['-'] + padded_int(d.month as int, 2) + seq!['-']
        + padded_int(d.day as int, 2)
}

impl Date {
    /// `d` names an existing calendar day.
    pub open spec fn is_valid(self) -> bool {
        is_valid_date(self.year as int, self.month as int, self.day as int)
    }

    /// Days from 1970-01-01 to this date.
    pub open spec fn day_number(self) -> int {
        day_number(self.year as int, self.month as int, self.day as int)
    }

    pub fn new(year: i32, month: u8, day: u8) -> (r: Self)
        ensures
            r == (Date { year, month, day }),
    {
        Date { year, month, day }
    }

    /// Date for a count of days since 1970-01-01 (negative = before).
    ///
    /// Hinnant's `civil_from_days`: it shifts the epoch to 0000-03-01 so leap
    /// days land at the end of the year, works in 400-year eras (146097 days
    /// each), and undoes the shift at the end.
    #[verifier::spinoff_prover]
    #[verifier::rlimit(40)]
    pub fn from_unix_days(days: i64) -> (r: Self)
        requires
            days <= i64::MAX - 719_468,
        ensures
            r == date_from_days(days as int),
    {
        let z = days + 719_468;
        let era = (if z >= 0 {
            z
        } else {
            z - 146_096
        }) / 146_097;
        proof {
            lemma_div_bounds(z as int, 146097);
            let q = (z as int) / 146097;
            if z < 0 {
                lemma_div_by(-(z - 146_096), 146097, -q);
            }
            assert(era as int == q);
        }
        let doe = z - era * 146_097;
        let yoe = (doe - doe / 1_460 + doe / 36_524 - doe / 146_096) / 365;
        let doy = doe - (365 * yoe + yoe / 4 - yoe / 100);
        let mp = (5 * doy + 2) / 153;
        let day = doy - (153 * mp + 2) / 5 + 1;
        let month = if mp < 10 {
            mp + 3
        } else {
            mp - 9
        };
        let year = yoe + era * 400 + (if month <= 2 {
            1
        } else {
            0
        });
        proof {
            lemma_civil_from_era(
                era as int,
                doe as int,
                yoe as int,
                doy as int,
                mp as int,
                day as int,
                month as int,
                year as int,
            );
            lemma_date_of_day(days as int);
        }
        Date { year: year as i32, month: month as u8, day: day as u8 }
    }

    /// The following calendar day — for the one-day half-open interval of a
    /// point-in-time observation. Month/year rollover handled; leap years by
    /// the divisibility rule.
    pub fn next_day(self) -> (r: Date)
        requires
            (self.day as int) < days_in_month(self.year as int, self.month as int) || self.month
                < 12 || self.year < i32::MAX,
        ensures
            r == following_day(self),
    {
        let leap = is_multiple(self.year, 4) && (!is_multiple(self.year, 100) || is_multiple(
            self.year,
            400,
        ));
        let dim: u8 = if self.month == 2 {
            if leap {
                29
            } else {
                28
            }
        } else if self.month == 4 || self.month == 6 || self.month == 9 || self.month == 11 {
            30
        } else {
            31
        };
        if self.day < dim {
            Date::new(self.year, self.month, self.day + 1)
        } else if self.month < 12 {
            Date::new(self.year, self.month + 1, 1)
        } else {
            Date::new(self.year + 1, 1, 1)
        }
    }

    /// `YYYY-MM-DD`.
    pub fn to_string(&self) -> (r: String)
        ensures
            r@ == iso_date(*self),
    {
        let mut s = String::new();
        push_date(&mut s, self);
        s
    }
}

/// Appends `d` as `YYYY-MM-DD`.
pub fn push_date(s: &mut String, d: &Date)
    ensures
        final(s)@ == old(s)@ + iso_date(*d),
{
    push_padded_int(s, d.year as i64, 4);
    push_char(s, '-');
    push_padded(s, d.month as u64, 2);
    push_char(s, '-');
    push_padded(s, d.day as u64, 2);
    proof {
        assert(padded_int(d.month as int, 2) == crate::text::zero_padded(
            crate::text::decimal(d.month as nat),
            2,
        ));
        assert(padded_int(d.day as int, 2) == crate::text::zero_padded(
            crate::text::decimal(d.day as nat),
            2,
        ));
        assert(final(s)@ =~= old(s)@ + iso_date(*d));
    }
}

/// `k` divides `v` (Rust's remainder and the Euclidean one are zero together).
fn is_multiple(v: i32, k: i32) -> (r: bool)
    requires
        k > 0,
    ensures
        r == ((v as int) % (k as int) == 0),
{
    proof {
        let kk = k as int;
        if v < 0 {
            lemma_div_bounds(-v, kk);
            let q = (-v) / kk;
            assert(kk * q == q * kk) by (nonlinear_arith);
            assert((-q) * kk == -(q * kk)) by (nonlinear_arith);
            assert((-q - 1) * kk == -(q * kk) - kk) by (nonlinear_arith);
            if (-v) % kk == 0 {
                lemma_div_by(v as int, kk, -q);
            } else {
                lemma_div_by(v as int, kk, -q - 1);
            }
        }
    }
    v % k == 0
}

/// A UTC instant with second precision, written as RFC 3339
/// (`2026-08-31T04:05:06Z`).
#[derive(Debug, Clone, Copy, PartialEq, Eq, Structural, PartialOrd, Ord)]
pub struct Timestamp {
    pub unix_seconds: i64,
}

/// The system clock's reading type.
#[verifier::external_type_specification]
#[verifier::external_body]
pub struct ExSystemTime(std::time::SystemTime);

/// `SystemTime::now`: the system clock. Nothing is claimed about the
/// reading: it is the time.
#[verifier::external_body]
fn clock_now() -> std::time::SystemTime {
    std::time::SystemTime::now()
}

/// `SystemTime::duration_since(UNIX_EPOCH)`: the time elapsed since
/// 1970-01-01T00:00:00Z, or `None` for a reading earlier than that. Nothing
/// is claimed about the duration.
#[verifier::external_body]
fn since_epoch(t: std::time::SystemTime) -> Option<std::time::Duration> {
    t.duration_since(std::time::UNIX_EPOCH).ok()
}

/// `Duration::as_secs`: the whole seconds of a duration. Nothing is claimed
/// about them.
#[verifier::external_body]
fn whole_seconds(d: &std::time::Duration) -> u64 {
    d.as_secs()
}

/// The timestamp a clock reading stands for: seconds since the epoch cast to
/// `i64` as `as` does, and 0 for a clock set before 1970.
pub open spec fn timestamp_of_reading(reading: Option<u64>) -> Timestamp {
    match reading {
        Some(secs) => Timestamp { unix_seconds: secs as i64 },
        None => Timestamp { unix_seconds: 0 },
    }
}

/// `T` then the time of day, `hh:mm:ss`, then `Z`.
pub open spec fn rfc3339(t: Timestamp) -> Seq<char> {
    let sod = (t.unix_seconds as int) % 86400;
    iso_date(date_from_days((t.unix_seconds as int) / 86400)) + seq!['T'] + padded_int(
        sod / 3600,
        2,
    ) + seq![':'] + padded_int((sod % 3600) / 60, 2) + seq![':'] + padded_int(sod % 60, 2)
        + seq!['Z']
}

impl Timestamp {
    /// The current time. Whatever the clock says, the result is what
    /// `from_clock_reading` makes of one reading of it.
    pub fn now() -> (r: Self)
        ensures
            exists|reading: Option<u64>| r == timestamp_of_reading(reading),
    {
        let reading = match since_epoch(clock_now()) {
            Some(d) => Some(whole_seconds(&d)),
            None => None,
        };
        Timestamp::from_clock_reading(reading)
    }

    /// The timestamp for a clock reading: `None` (a clock before 1970) is 0.
    pub fn from_clock_reading(reading: Option<u64>) -> (r: Self)
        ensures
            r == timestamp_of_reading(reading),
    {
        match reading {
            Some(secs) => Timestamp { unix_seconds: secs as i64 },
            None => Timestamp { unix_seconds: 0 },
        }
    }

    /// The UTC calendar date of this instant (days rounded toward negative
    /// infinity, so pre-1970 instants land on the right day).
    pub fn date(&self) -> (r: Date)
        ensures
            r == date_from_days((self.unix_seconds as int) / 86400),
    {
        let days = day_of_second(self.unix_seconds);
        proof {
            lemma_div_bounds(self.unix_seconds as int, 86400);
        }
        Date::from_unix_days(days)
    }

    /// RFC 3339: `2026-08-31T04:05:06Z`.
    pub fn to_string(&self) -> (r: String)
        ensures
            r@ == rfc3339(*self),
    {
        let sod = second_of_day(self.unix_seconds);
        let mut s = String::new();
        let d = self.date();
        push_date(&mut s, &d);
        let ghost s0 = s@;
        push_char(&mut s, 'T');
        let ghost s1 = s@;
        push_padded(&mut s, (sod / 3_600) as u64, 2);
        let ghost s2 = s@;
        push_char(&mut s, ':');
        let ghost s3 = s@;
        push_padded(&mut s, ((sod % 3_600) / 60) as u64, 2);
        let ghost s4 = s@;
        push_char(&mut s, ':');
        let ghost s5 = s@;
        push_padded(&mut s, (sod % 60) as u64, 2);
        let ghost s6 = s@;
        push_char(&mut s, 'Z');
        proof {
            let sd = sod as int;
            let hh = padded_int(sd / 3600, 2);
            let mm = padded_int((sd % 3600) / 60, 2);
            let ss = padded_int(sd % 60, 2);
            assert(hh == crate::text::zero_padded(crate::text::decimal((sd / 3600) as nat), 2));
            assert(mm == crate::text::zero_padded(
                crate::text::decimal(((sd % 3600) / 60) as nat),
                2,
            ));
            assert(ss == crate::text::zero_padded(crate::text::decimal((sd % 60) as nat), 2));
            assert(s0 == iso_date(d));
            assert(s1 =~= iso_date(d) + seq!['T']);
            assert(s2 =~= iso_date(d) + seq!['T'] + hh);
            assert(s3 =~= iso_date(d) + seq!['T'] + hh + seq![':']);
            assert(s4 =~= iso_date(d) + seq!['T'] + hh + seq![':'] + mm);
            assert(s5 =~= iso_date(d) + seq!['T'] + hh + seq![':'] + mm + seq![':']);
            assert(s6 =~= iso_date(d) + seq!['T'] + hh + seq![':'] + mm + seq![':'] + ss);
            assert(s@ =~= rfc3339(*self));
        }
        s
    }
}

/// `⌊x / 86400⌋`: the day of an instant (Euclidean division).
pub fn day_of_second(x: i64) -> (r: i64)
    ensures
        r == (x as int) / 86400,
{
    proof {
        lemma_div_bounds(x as int, 86400);
    }
    if x >= 0 {
        x / 86_400
    } else {
        let q = (x + 1) / 86_400 - 1;
        proof {
            lemma_div_bounds(-(x + 1), 86400);
            lemma_div_by(x as int, 86400, q as int);
        }
        q
    }
}

/// `⌊ms / 86400000⌋`: the day of a millisecond timestamp.
pub fn day_of_millis(ms: i64) -> (r: i64)
    ensures
        r == (ms as int) / 86400000,
        r <= 106751991167,
{
    proof {
        lemma_div_bounds(ms as int, 86400000);
    }
    if ms >= 0 {
        ms / 86_400_000
    } else {
        let q = (ms + 1) / 86_400_000 - 1;
        proof {
            lemma_div_bounds(-(ms + 1), 86400000);
            lemma_div_by(ms as int, 86400000, q as int);
        }
        q
    }
}

/// `x mod 86400`: the second of the day of an instant (Euclidean remainder).
pub fn second_of_day(x: i64) -> (r: i64)
    ensures
        r == (x as int) % 86400,
        0 <= r < 86400,
{
    proof {
        lemma_div_bounds(x as int, 86400);
    }
    if x >= 0 {
        x % 86_400
    } else {
        let r = x % 86_400;
        proof {
            lemma_div_bounds(-x, 86400);
            let q = (-x) / 86400;
            if (-x) % 86400 == 0 {
                lemma_div_by(x as int, 86400, -q);
            } else {
                lemma_div_by(x as int, 86400, -q - 1);
            }
        }
        if r < 0 {
            r + 86_400
        } else {
            r
        }
    }
}

// ---------------------------------------------------------------------------
// Laws
// ---------------------------------------------------------------------------
/// The day after a valid date is a valid date, one day number later.
#[verifier::rlimit(40)]
pub proof fn lemma_following_day_is_next_day_number(d: Date)
    requires
        d.is_valid(),
        d.year < i32::MAX,
    ensures
        following_day(d).is_valid(),
        following_day(d).day_number() == d.day_number() + 1,
{
    let y = d.year as int;
    let m = d.month as int;
    if (d.day as int) < days_in_month(y, m) {
    } else if m < 12 {
        assert(days_before_month(y, m + 1) == days_before_month(y, m) + days_in_month(y, m));
    } else {
        lemma_div_step(y, 4);
        lemma_div_step(y, 100);
        lemma_div_step(y, 400);
        assert(days_before_year(y + 1) == days_before_year(y) + 365 + leap_value(y));
        assert(days_before_month(y, 12) + 31 == 365 + leap_value(y));
        assert(days_before_month(y + 1, 1) == 0);
    }
}

/// A valid date with a 32-bit year is the date of its own day number:
/// `from_unix_days` gives back every date it can return.
pub proof fn lemma_date_from_day_number(d: Date)
    requires
        d.is_valid(),
    ensures
        date_from_days(d.day_number()) == d,
{
    lemma_date_of_day(d.day_number());
}

/// Counting days and stepping dates agree: the day after the date of day
/// `n` is the date of day `n + 1` (while the year stays within 32 bits).
pub proof fn lemma_next_day_agrees_with_day_count(n: int)
    requires
        i32::MIN <= date_of_day(n).0 < i32::MAX,
    ensures
        following_day(date_from_days(n)) == date_from_days(n + 1),
{
    lemma_date_of_day(n);
    let d = date_from_days(n);
    assert(d.is_valid() && d.day_number() == n);
    lemma_following_day_is_next_day_number(d);
    lemma_date_from_day_number(following_day(d));
}

/// Every valid date is `date_from_days` of exactly one day number.
pub proof fn lemma_day_number_names_one_date(a: Date, b: Date)
    requires
        a.is_valid(),
        b.is_valid(),
        a.day_number() == b.day_number(),
    ensures
        a == b,
{
    lemma_day_number_injective(
        a.year as int,
        a.month as int,
        a.day as int,
        b.year as int,
        b.month as int,
        b.day as int,
    );
}


/// `a` comes before `b` in the calendar: by year, then month, then day
/// (the order `derive(Ord)` gives `Date`).
pub open spec fn date_before(a: Date, b: Date) -> bool {
    civil_before(
        a.year as int,
        a.month as int,
        a.day as int,
        b.year as int,
        b.month as int,
        b.day as int,
    )
}

/// Later day counts give later dates, and every day count within a hundred
/// billion days of 1970 gives a valid date.
pub proof fn lemma_later_days_later_dates(a: int, b: int)
    requires
        -100_000_000_000 <= a < b <= 100_000_000_000,
    ensures
        date_from_days(a).is_valid(),
        date_from_days(b).is_valid(),
        date_before(date_from_days(a), date_from_days(b)),
{
    lemma_date_of_day(a);
    lemma_date_of_day(b);
    lemma_date_of_day_year_bound(a);
    lemma_date_of_day_year_bound(b);
    let (y1, m1, d1) = date_of_day(a);
    let (y2, m2, d2) = date_of_day(b);
    if civil_before(y2, m2, d2, y1, m1, d1) {
        lemma_day_number_increasing(y2, m2, d2, y1, m1, d1);
    } else if y1 == y2 && m1 == m2 && d1 == d2 {
    }
}
} // verus!
