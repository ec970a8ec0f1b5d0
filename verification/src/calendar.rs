//! The proleptic Gregorian calendar as mathematics: which dates exist, and the
//! day number of each date counted from 1970-01-01.
//!
//! Everything here is ghost: the definitions the contracts of `time` are stated
//! in, and the lemmas that connect them to the integer arithmetic the
//! executable code performs.

use vstd::prelude::*;
use vstd::arithmetic::div_mod::{
    lemma_fundamental_div_mod, lemma_fundamental_div_mod_converse, lemma_mod_bound,
};

verus! {

/// Leap years: divisible by 4, except centuries not divisible by 400.
pub open spec fn is_leap_year(y: int) -> bool {
    y % 4 == 0 && (y % 100 != 0 || y % 400 == 0)
}

/// 1 in a leap year, 0 otherwise.
pub open spec fn leap_value(y: int) -> int {
    if is_leap_year(y) {
        1
    } else {
        0
    }
}

/// Number of days of month `m` (1 = January) in year `y`.
pub open spec fn days_in_month(y: int, m: int) -> int {
    if m == 2 {
        28 + leap_value(y)
    } else if m == 4 || m == 6 || m == 9 || m == 11 {
        30
    } else {
        31
    }
}

/// `y-m-d` names a day of the calendar.
pub open spec fn is_valid_date(y: int, m: int, d: int) -> bool {
    1 <= m <= 12 && 1 <= d <= days_in_month(y, m)
}

/// Days of year `y` that come before the first of month `m`.
pub open spec fn days_before_month(y: int, m: int) -> int {
    let common: int = if m <= 1 {
        0
    } else if m == 2 {
        31
    } else if m == 3 {
        59
    } else if m == 4 {
        90
    } else if m == 5 {
        120
    } else if m == 6 {
        151
    } else if m == 7 {
        181
    } else if m == 8 {
        212
    } else if m == 9 {
        243
    } else if m == 10 {
        273
    } else if m == 11 {
        304
    } else {
        334
    };
    if m > 2 {
        common + leap_value(y)
    } else {
        common
    }
}

/// Leap years among the years 1 ..= y - 1 (negative for years before 1).
pub open spec fn leap_days_before(y: int) -> int {
    (y - 1) / 4 - (y - 1) / 100 + (y - 1) / 400
}

/// Days from 1970-01-01 to the first of January of year `y`.
pub open spec fn days_before_year(y: int) -> int {
    365 * (y - 1970) + leap_days_before(y) - leap_days_before(1970)
}

/// Days from 1970-01-01 to `y-m-d` (negative before 1970).
pub open spec fn day_number(y: int, m: int, d: int) -> int {
    days_before_year(y) + days_before_month(y, m) + d - 1
}

/// The date whose day number is `n`; `lemma_date_of_day` shows there is
/// exactly one.
pub open spec fn date_of_day(n: int) -> (int, int, int) {
    choose|t: (int, int, int)| is_valid_date(t.0, t.1, t.2) && day_number(t.0, t.1, t.2) == n
}

// ---- the March-based count that the day arithmetic runs on ----
/// First day (counted from 0) of the `k`-th month of a year that starts on
/// the first of March.
pub open spec fn march_start(k: int) -> int {
    if k <= 0 {
        0
    } else if k == 1 {
        31
    } else if k == 2 {
        61
    } else if k == 3 {
        92
    } else if k == 4 {
        122
    } else if k == 5 {
        153
    } else if k == 6 {
        184
    } else if k == 7 {
        214
    } else if k == 8 {
        245
    } else if k == 9 {
        275
    } else if k == 10 {
        306
    } else if k == 11 {
        337
    } else {
        366
    }
}

/// The March-based month that day `doy` of a March-based year falls in.
pub open spec fn march_index(doy: int) -> int {
    if doy < 31 {
        0
    } else if doy < 61 {
        1
    } else if doy < 92 {
        2
    } else if doy < 122 {
        3
    } else if doy < 153 {
        4
    } else if doy < 184 {
        5
    } else if doy < 214 {
        6
    } else if doy < 245 {
        7
    } else if doy < 275 {
        8
    } else if doy < 306 {
        9
    } else if doy < 337 {
        10
    } else {
        11
    }
}

/// Days from 0000-03-01 to the first of March of year `y`.
pub open spec fn march_year_start(y: int) -> int {
    365 * y + y / 4 - y / 100 + y / 400
}

/// Month number (1 = January) of the `k`-th March-based month.
pub open spec fn month_of_march_index(k: int) -> int {
    if k < 10 {
        k + 3
    } else {
        k - 9
    }
}

/// The March-based year a date belongs to (January and February count with
/// the year before).
pub open spec fn march_year(y: int, m: int) -> int {
    if m <= 2 {
        y - 1
    } else {
        y
    }
}

/// The March-based month index of month `m`.
pub open spec fn march_index_of_month(m: int) -> int {
    if m <= 2 {
        m + 9
    } else {
        m - 3
    }
}

// ---- division helpers ----
pub proof fn lemma_div_by(x: int, d: int, q: int)
    requires
        d > 0,
        q * d <= x < q * d + d,
    ensures
        x / d == q,
        x % d == x - q * d,
{
    lemma_fundamental_div_mod_converse(x, d, q, x - q * d);
}

pub proof fn lemma_div_bounds(x: int, d: int)
    requires
        d > 0,
    ensures
        d * (x / d) <= x < d * (x / d) + d,
        x % d == x - d * (x / d),
{
    lemma_fundamental_div_mod(x, d);
    lemma_mod_bound(x, d);
}

/// Going from `y - 1` to `y` adds one to `⌊·/k⌋` exactly when `k` divides `y`.
pub proof fn lemma_div_step(y: int, k: int)
    requires
        k > 0,
    ensures
        y / k - (y - 1) / k == (if y % k == 0 {
            1int
        } else {
            0int
        }),
{
    lemma_div_bounds(y - 1, k);
    let q = (y - 1) / k;
    if y - 1 - k * q == k - 1 {
        assert((q + 1) * k == k * q + k) by (nonlinear_arith);
        lemma_div_by(y, k, q + 1);
    } else {
        assert(q * k == k * q) by (nonlinear_arith);
        lemma_div_by(y, k, q);
    }
}

/// Moving by whole 400-year eras does not change leap-ness.
pub proof fn lemma_leap_shift(e: int, x: int)
    ensures
        is_leap_year(400 * e + x) == is_leap_year(x),
{
    lemma_div_bounds(x, 4);
    lemma_div_bounds(x, 100);
    lemma_div_bounds(x, 400);
    lemma_div_by(400 * e + x, 4, 100 * e + x / 4);
    lemma_div_by(400 * e + x, 100, 4 * e + x / 100);
    lemma_div_by(400 * e + x, 400, e + x / 400);
}

/// One March-based year is 365 days, plus one when its February has a 29th.
pub proof fn lemma_march_year_step(y: int)
    ensures
        march_year_start(y + 1) - march_year_start(y) == 365 + leap_value(y + 1),
{
    lemma_div_step(y + 1, 4);
    lemma_div_step(y + 1, 100);
    lemma_div_step(y + 1, 400);
}

pub proof fn lemma_march_year_start_monotone(a: int, b: int)
    requires
        a <= b,
    ensures
        march_year_start(a) <= march_year_start(b),
    decreases b - a,
{
    if a < b {
        lemma_march_year_step(a);
        lemma_march_year_start_monotone(a + 1, b);
    }
}

/// The day number of a valid date, written in March-based terms.
pub proof fn lemma_day_number_march(y: int, m: int, d: int)
    requires
        is_valid_date(y, m, d),
    ensures
        day_number(y, m, d) == march_year_start(march_year(y, m)) + march_start(
            march_index_of_month(m),
        ) + d - 1 - 719468,
        march_index_of_month(m) == 11 ==> d <= 28 + leap_value(march_year(y, m) + 1),
        march_index_of_month(m) < 11 ==> d <= march_start(march_index_of_month(m) + 1)
            - march_start(march_index_of_month(m)),
        0 <= march_index_of_month(m) <= 11,
        month_of_march_index(march_index_of_month(m)) == m,
{
    lemma_div_by(1969, 4, 492);
    lemma_div_by(1969, 100, 19);
    lemma_div_by(1969, 400, 4);
    if m <= 2 {
        // leap_days_before(y) counts through year y - 1, which is the March year
        assert(leap_days_before(y) == (y - 1) / 4 - (y - 1) / 100 + (y - 1) / 400);
    } else {
        lemma_div_step(y, 4);
        lemma_div_step(y, 100);
        lemma_div_step(y, 400);
    }
}

/// Splitting off whole eras of 146097 days.
pub proof fn lemma_march_year_start_era(era: int, yoe: int)
    requires
        0 <= yoe <= 399,
    ensures
        march_year_start(400 * era + yoe) == 146097 * era + 365 * yoe + yoe / 4 - yoe / 100,
{
    lemma_div_bounds(yoe, 4);
    lemma_div_bounds(yoe, 100);
    lemma_div_by(400 * era + yoe, 4, 100 * era + yoe / 4);
    lemma_div_by(400 * era + yoe, 100, 4 * era + yoe / 100);
    lemma_div_by(400 * era + yoe, 400, era);
}

/// The year-of-era step: a day of a 400-year era (`doe`) lies in year
/// `yoe` of the era, on March-based day `doy` of that year.
pub proof fn lemma_year_of_era(doe: int)
    requires
        0 <= doe <= 146096,
    ensures
        ({
            let yoe = (doe - doe / 1460 + doe / 36524 - doe / 146096) / 365;
            let doy = doe - (365 * yoe + yoe / 4 - yoe / 100);
            &&& 0 <= yoe <= 399
            &&& 0 <= doy <= 364 + leap_value(yoe + 1)
        }),
{
    // decompose doe = 36524 c + 1461 b + 365 a + doy
    lemma_div_bounds(doe, 36524);
    let c0 = doe / 36524;
    let c = if c0 > 3 {
        3
    } else {
        c0
    };
    let r1 = doe - 36524 * c;
    lemma_div_bounds(r1, 1461);
    let b0 = r1 / 1461;
    let b = if b0 > 24 {
        24
    } else {
        b0
    };
    let r2 = r1 - 1461 * b;
    lemma_div_bounds(r2, 365);
    let a0 = r2 / 365;
    let a = if a0 > 3 {
        3
    } else {
        a0
    };
    let doy = r2 - 365 * a;
    let yoe = 100 * c + 4 * b + a;
    assert(0 <= c <= 3 && 0 <= b <= 24 && 0 <= a <= 3);
    let leap: int = if a == 3 && (b != 24 || c == 3) {
        1
    } else {
        0
    };
    assert(0 <= doy <= 364 + leap);
    // the divisions the executable formula performs
    let big: int = if doe == 146096 {
        1
    } else {
        0
    };
    lemma_div_by(doe, 146096, big);
    let cc: int = if doe == 146096 {
        4
    } else {
        c
    };
    lemma_div_by(doe, 36524, cc);
    let rr = 24 * c + b + 365 * a + doy;
    let carry: int = if rr >= 1460 {
        1
    } else {
        0
    };
    lemma_div_by(doe, 1460, 25 * c + b + carry);
    let num = doe - (25 * c + b + carry) + cc - big;
    assert(num == 365 * yoe + doy - carry);
    assert(0 <= doy - carry <= 364);
    lemma_div_by(num, 365, yoe);
    lemma_div_by(yoe, 4, 25 * c + b);
    lemma_div_by(yoe, 100, c);
    // leap-ness of the calendar year that holds this era-year's February
    let q4: int = if a == 3 {
        25 * c + b + 1
    } else {
        25 * c + b
    };
    lemma_div_by(yoe + 1, 4, q4);
    let q100: int = if b == 24 && a == 3 {
        c + 1
    } else {
        c
    };
    lemma_div_by(yoe + 1, 100, q100);
    let q400: int = if yoe == 399 {
        1
    } else {
        0
    };
    lemma_div_by(yoe + 1, 400, q400);
    assert(leap_value(yoe + 1) == leap);
}

/// The month step: March-based day `doy` falls in March-based month
/// `(5 doy + 2) / 153`, which starts on day `(153 mp + 2) / 5`.
pub proof fn lemma_month_of_day(doy: int, leap: int)
    requires
        0 <= leap <= 1,
        0 <= doy <= 364 + leap,
    ensures
        ({
            let mp = (5 * doy + 2) / 153;
            &&& 0 <= mp <= 11
            &&& (153 * mp + 2) / 5 == march_start(mp)
            &&& march_start(mp) <= doy
            &&& mp < 11 ==> doy < march_start(mp + 1)
            &&& mp == 11 ==> doy - march_start(mp) + 1 <= 28 + leap
        }),
{
    let k = march_index(doy);
    lemma_div_by(5 * doy + 2, 153, k);
    lemma_div_by(153 * k + 2, 5, march_start(k));
}

/// A valid date is fixed by its day number.
pub proof fn lemma_day_number_injective(y1: int, m1: int, d1: int, y2: int, m2: int, d2: int)
    requires
        is_valid_date(y1, m1, d1),
        is_valid_date(y2, m2, d2),
        day_number(y1, m1, d1) == day_number(y2, m2, d2),
    ensures
        y1 == y2 && m1 == m2 && d1 == d2,
{
    lemma_day_number_march(y1, m1, d1);
    lemma_day_number_march(y2, m2, d2);
    let ya = march_year(y1, m1);
    let yb = march_year(y2, m2);
    let ka = march_index_of_month(m1);
    let kb = march_index_of_month(m2);
    let doya = march_start(ka) + d1 - 1;
    let doyb = march_start(kb) + d2 - 1;
    assert(doya <= 364 + leap_value(ya + 1));
    assert(doyb <= 364 + leap_value(yb + 1));
    if ya < yb {
        lemma_march_year_step(ya);
        lemma_march_year_start_monotone(ya + 1, yb);
        assert(false);
    } else if yb < ya {
        lemma_march_year_step(yb);
        lemma_march_year_start_monotone(yb + 1, ya);
        assert(false);
    }
    assert(doya == doyb);
    assert(ka == kb);
}

/// Every integer is the day number of exactly one date, `date_of_day(n)`.
pub proof fn lemma_date_of_day(n: int)
    ensures
        is_valid_date(date_of_day(n).0, date_of_day(n).1, date_of_day(n).2),
        day_number(date_of_day(n).0, date_of_day(n).1, date_of_day(n).2) == n,
        forall|y: int, m: int, d: int|
            is_valid_date(y, m, d) && day_number(y, m, d) == n ==> date_of_day(n) == (y, m, d),
{
    let z = n + 719468;
    lemma_div_bounds(z, 146097);
    let era = z / 146097;
    let doe = z - 146097 * era;
    let yoe = (doe - doe / 1460 + doe / 36524 - doe / 146096) / 365;
    let doy = doe - (365 * yoe + yoe / 4 - yoe / 100);
    let mp = (5 * doy + 2) / 153;
    let d = doy - (153 * mp + 2) / 5 + 1;
    let m = month_of_march_index(mp);
    let y = yoe + 400 * era + (if m <= 2 {
        1int
    } else {
        0int
    });
    lemma_civil_from_era(era, doe, yoe, doy, mp, d, m, y);
    let w = (y, m, d);
    assert(is_valid_date(w.0, w.1, w.2) && day_number(w.0, w.1, w.2) == n);
    let c = date_of_day(n);
    assert(is_valid_date(c.0, c.1, c.2) && day_number(c.0, c.1, c.2) == n);
    assert forall|y: int, m: int, d: int|
        is_valid_date(y, m, d) && day_number(y, m, d) == n implies date_of_day(n) == (y, m, d) by {
        lemma_day_number_injective(c.0, c.1, c.2, y, m, d);
    }
}

/// The date on day `doe` of the 400-year era `era` (eras start on March 1
/// of years divisible by 400), found by the day arithmetic in the
/// parameters' defining equations.
pub proof fn lemma_civil_from_era(
    era: int,
    doe: int,
    yoe: int,
    doy: int,
    mp: int,
    d: int,
    m: int,
    y: int,
)
    requires
        0 <= doe <= 146096,
        yoe == (doe - doe / 1460 + doe / 36524 - doe / 146096) / 365,
        doy == doe - (365 * yoe + yoe / 4 - yoe / 100),
        mp == (5 * doy + 2) / 153,
        d == doy - (153 * mp + 2) / 5 + 1,
        m == month_of_march_index(mp),
        y == yoe + 400 * era + (if m <= 2 {
            1int
        } else {
            0int
        }),
    ensures
        is_valid_date(y, m, d),
        day_number(y, m, d) == 146097 * era + doe - 719468,
        0 <= yoe <= 399,
        0 <= doy <= 365,
        0 <= mp <= 11,
{
    lemma_year_of_era(doe);
    let leap = leap_value(yoe + 1);
    lemma_month_of_day(doy, leap);
    let y_march = 400 * era + yoe;
    lemma_leap_shift(era, yoe + 1);
    assert(400 * era + (yoe + 1) == y_march + 1);
    assert(is_valid_date(y, m, d));
    lemma_day_number_march(y, m, d);
    assert(march_year(y, m) == y_march);
    assert(march_index_of_month(m) == mp);
    lemma_march_year_start_era(era, yoe);
}


// ---- order ----
/// `(y1, m1, d1)` comes before `(y2, m2, d2)`: by year, then month, then day.
pub open spec fn civil_before(y1: int, m1: int, d1: int, y2: int, m2: int, d2: int) -> bool {
    y1 < y2 || (y1 == y2 && (m1 < m2 || (m1 == m2 && d1 < d2)))
}

/// A calendar year is 365 days, plus one in a leap year.
pub proof fn lemma_days_before_year_step(y: int)
    ensures
        days_before_year(y + 1) == days_before_year(y) + 365 + leap_value(y),
{
    lemma_div_step(y, 4);
    lemma_div_step(y, 100);
    lemma_div_step(y, 400);
    let a: int = if y % 4 == 0 { 1 } else { 0 };
    let b: int = if y % 100 == 0 { 1 } else { 0 };
    let c: int = if y % 400 == 0 { 1 } else { 0 };
    assert(leap_days_before(y + 1) - leap_days_before(y) == a - b + c);
    lemma_div_bounds(y, 4);
    lemma_div_bounds(y, 100);
    lemma_div_bounds(y, 400);
    if y % 100 == 0 {
        lemma_div_by(y, 4, 25 * (y / 100));
    }
    if y % 400 == 0 {
        lemma_div_by(y, 100, 4 * (y / 400));
    }
    assert(a - b + c == leap_value(y));
}

/// Later years start later.
pub proof fn lemma_days_before_year_monotone(a: int, b: int)
    requires
        a <= b,
    ensures
        days_before_year(a) <= days_before_year(b),
    decreases b - a,
{
    if a < b {
        lemma_days_before_year_step(b - 1);
        lemma_days_before_year_monotone(a, b - 1);
    }
}

/// Later dates have larger day numbers.
pub proof fn lemma_day_number_increasing(y1: int, m1: int, d1: int, y2: int, m2: int, d2: int)
    requires
        is_valid_date(y1, m1, d1),
        is_valid_date(y2, m2, d2),
        civil_before(y1, m1, d1, y2, m2, d2),
    ensures
        day_number(y1, m1, d1) < day_number(y2, m2, d2),
{
    if y1 < y2 {
        lemma_days_before_year_step(y1);
        lemma_days_before_year_monotone(y1 + 1, y2);
        assert(days_before_month(y1, m1) + d1 - 1 < 365 + leap_value(y1));
    } else if m1 < m2 {
        assert(days_before_month(y1, m1) + days_in_month(y1, m1) <= days_before_month(y1, m2));
    }
}

/// The year of a day number within a hundred billion days of 1970 lies
/// within three hundred million years of it.
pub proof fn lemma_date_of_day_year_bound(n: int)
    requires
        -100_000_000_000 <= n <= 100_000_000_000,
    ensures
        -300_000_000 <= date_of_day(n).0 <= 300_000_000,
{
    lemma_date_of_day(n);
    let (y, m, d) = date_of_day(n);
    lemma_div_bounds(y - 1, 4);
    lemma_div_bounds(y - 1, 100);
    lemma_div_bounds(y - 1, 400);
    assert(days_before_month(y, m) + d - 1 <= 365);
    assert(leap_days_before(1970) == 477);
}
} // verus!
