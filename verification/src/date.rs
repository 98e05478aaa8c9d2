//! Calendar dates without a date library: leap years, month lengths, the
//! weekday a month starts on, dates from the system clock, and the month
//! navigation and day picking of the date picker.

use vstd::prelude::*;
use crate::text::{padded_int, push_padded_int, string_from_chars};

verus! {

/// Simple date representation (no external chrono dependency)
#[derive(Clone, Copy, Debug, PartialEq, Eq, Structural)]
pub struct SimpleDate {
    pub year: i32,
    /// 1-12
    pub month: u32,
    /// 1-31
    pub day: u32,
}

/// Gregorian leap year.
pub open spec fn is_leap(y: int) -> bool {
    (y % 4 == 0 && y % 100 != 0) || y % 400 == 0
}

/// Days in month `m` of year `y`; months outside 1..=12 count 30 days.
pub open spec fn month_length(y: int, m: int) -> int {
    if m == 1 || m == 3 || m == 5 || m == 7 || m == 8 || m == 10 || m == 12 {
        31
    } else if m == 4 || m == 6 || m == 9 || m == 11 {
        30
    } else if m == 2 {
        if is_leap(y) {
            29
        } else {
            28
        }
    } else {
        30
    }
}

/// Days in year `y`.
pub open spec fn year_length(y: int) -> int {
    if is_leap(y) {
        366
    } else {
        365
    }
}

/// Days from 1 January 1970 to 1 January of year `y` (for `y >= 1970`).
pub open spec fn days_before_year(y: int) -> int
    decreases y - 1970,
{
    if y <= 1970 {
        0
    } else {
        days_before_year(y - 1) + year_length(y - 1)
    }
}

/// Days from 1 January to the first of month `m` in year `y`.
pub open spec fn days_before_month(y: int, m: int) -> int
    decreases m,
{
    if m <= 1 {
        0
    } else {
        days_before_month(y, m - 1) + month_length(y, m - 1)
    }
}

/// Days from 1 January 1970 to the given date.
pub open spec fn days_since_epoch(d: SimpleDate) -> int {
    days_before_year(d.year as int) + days_before_month(d.year as int, d.month as int) + d.day - 1
}

/// A real calendar date.
pub open spec fn valid_date(d: SimpleDate) -> bool {
    1 <= d.month <= 12 && 1 <= d.day <= month_length(d.year as int, d.month as int)
}

/// Rust's `/` on integers: the quotient rounded toward zero.
pub open spec fn quot(a: int, b: int) -> int {
    if a >= 0 {
        a / b
    } else {
        -((-a) / b)
    }
}

/// Rust's `%` on integers: the remainder that takes the sign of `a`.
pub open spec fn rem(a: int, b: int) -> int {
    a - b * quot(a, b)
}

/// Zeller's congruence for the first day of month `m` (1..=12) of year
/// `y`, evaluated with Rust's integer division, turned into a weekday
/// with 0 = Sunday.
pub open spec fn zeller_first_weekday(y: int, m: int) -> int {
    let yy = if m < 3 {
        y - 1
    } else {
        y
    };
    let mm = if m < 3 {
        m + 12
    } else {
        m
    };
    let k = rem(yy, 100);
    let j = quot(yy, 100);
    let h = rem(1 + (13 * (mm + 1)) / 5 + k + quot(k, 4) + quot(j, 4) + 5 * j, 7);
    rem(h + 6, 7)
}

/// A `u32` month converted to `i32` as `as` does (wrapping above
/// `i32::MAX`).
pub open spec fn month_as_i32(month: u32) -> int {
    if month <= 0x7fff_ffff {
        month as int
    } else {
        month - 0x1_0000_0000
    }
}

/// The weekday `first_day_of_month` computes for any month number: Zeller's
/// congruence on the month as converted to `i32`, January and February
/// counted as months 13 and 14 of the year before. For months 1..=12 this
/// is `zeller_first_weekday`.
pub open spec fn first_weekday(y: int, month: u32) -> int {
    if month < 3 {
        zeller_first_weekday(y, month as int)
    } else {
        let m = month_as_i32(month);
        let k = rem(y, 100);
        let j = quot(y, 100);
        let h = rem(1 + quot(13 * (m + 1), 5) + k + quot(k, 4) + quot(j, 4) + 5 * j, 7);
        rem(h + 6, 7)
    }
}

/// `first_day_of_month` runs without overflow: the year before January and
/// February exists, and `13 * (m + 1)` fits in `i32` for the converted
/// month `m`.
pub open spec fn weekday_computable(d: SimpleDate) -> bool {
    if d.month < 3 {
        d.year > i32::MIN
    } else {
        -165_191_049 <= month_as_i32(d.month) + 1 <= 165_191_049
    }
}

/// The conversion of a month to `i32`.
proof fn lemma_month_as_i32(month: u32)
    ensures
        (month as i32) as int == month_as_i32(month),
{
    assert(month <= 0x7fff_ffff ==> (month as i32) as int == month as int) by (bit_vector);
    assert(month > 0x7fff_ffff ==> (month as i32) as int == month as int - 0x1_0000_0000)
        by (bit_vector);
}

/// The date `today()` makes of a whole number of days since the epoch
/// (after the `i32` conversion of the day count): for a non-negative count
/// the valid date that many days after 1 January 1970; a negative count
/// falls through to January 1970 with its day wrapped into `u32` (the
/// `+ 1` wraps as in a release build).
pub open spec fn date_from_day_count(n: i32, d: SimpleDate) -> bool {
    if n >= 0 {
        &&& valid_date(d)
        &&& d.year >= 1970
        &&& days_since_epoch(d) == n
    } else {
        &&& d.year == 1970
        &&& d.month == 1
        &&& d.day == (n as u32).wrapping_add(1)
    }
}

/// Calls `SystemTime::now`; the result is whatever the clock reads.
#[verifier::external_body]
fn system_now() -> (r: std::time::SystemTime) {
    std::time::SystemTime::now()
}

/// Calls `SystemTime::duration_since(UNIX_EPOCH)`: the time since the Unix
/// epoch, or an error for a clock set before it; nothing is promised of
/// which.
#[verifier::external_body]
fn duration_since_unix_epoch(t: &std::time::SystemTime) -> (r: Result<std::time::Duration, std::time::SystemTimeError>) {
    t.duration_since(std::time::UNIX_EPOCH)
}

/// Calls `Duration::as_secs`: the whole seconds of a duration (the
/// duration is opaque here, so nothing is stated of the value).
#[verifier::external_body]
fn whole_secs(d: &std::time::Duration) -> (r: u64) {
    d.as_secs()
}

#[verifier::external_type_specification]
#[verifier::external_body]
pub struct ExSystemTimeError(std::time::SystemTimeError);

#[verifier::external_type_specification]
#[verifier::external_body]
pub struct ExSystemTime(std::time::SystemTime);

impl SimpleDate {
    pub fn new(year: i32, month: u32, day: u32) -> (r: Self)
        ensures
            r == (SimpleDate { year, month, day }),
    {
        SimpleDate { year, month, day }
    }

    pub fn is_leap_year(year: i32) -> (r: bool)
        ensures
            r == is_leap(year as int),
    {
        (year % 4 == 0 && year % 100 != 0) || (year % 400 == 0)
    }

    pub fn days_in_month(year: i32, month: u32) -> (r: u32)
        ensures
            r == month_length(year as int, month as int),
    {
        match month {
            1 | 3 | 5 | 7 | 8 | 10 | 12 => 31,
            4 | 6 | 9 | 11 => 30,
            2 => if Self::is_leap_year(year) {
                29
            } else {
                28
            },
            _ => 30,
        }
    }

    /// Get day of week for first day of month (0 = Sunday, 6 = Saturday)
    #[verifier::rlimit(40)]
    pub fn first_day_of_month(&self) -> (r: u32)
        requires
            weekday_computable(*self),
        ensures
            r == first_weekday(self.year as int, self.month),
            r < 7,
    {
        let y: i32 = if self.month < 3 {
            self.year - 1
        } else {
            self.year
        };
        proof {
            lemma_month_as_i32(self.month);
        }
        #[verifier::truncate]
        let converted: i32 = self.month as i32;
        let m: i32 = if self.month < 3 {
            converted + 12
        } else {
            converted
        };
        let q: i32 = 1;
        let k: i32 = y % 100;
        let j: i32 = y / 100;
        let t: i32 = (13 * (m + 1)) / 5;
        let h: i32 = (q + t + k + k / 4 + j / 4 + 5 * j) % 7;
        proof {
            assert(k as int == rem(y as int, 100));
            assert(j as int == quot(y as int, 100));
            assert(t as int == quot(13 * (m + 1), 5));
            assert(h as int == rem(1 + t + k + quot(k as int, 4) + quot(j as int, 4) + 5 * j, 7));
        }
        ((h + 6) % 7) as u32
    }

    /// The date written as `YYYY-MM-DD`, zero padded (`format!("{:04}-{:02}-{:02}")`).
    pub fn format(&self) -> (r: String)
        ensures
            r@ == padded_int(self.year as int, 4) + seq!['-'] + padded_int(self.month as int, 2)
                + seq!['-'] + padded_int(self.day as int, 2),
    {
        let mut v: Vec<char> = Vec::new();
        push_padded_int(&mut v, self.year as i64, 4);
        v.push('-');
        push_padded_int(&mut v, self.month as i64, 2);
        v.push('-');
        push_padded_int(&mut v, self.day as i64, 2);
        proof {
            assert(v@ =~= padded_int(self.year as int, 4) + seq!['-'] + padded_int(
                self.month as int,
                2,
            ) + seq!['-'] + padded_int(self.day as int, 2));
        }
        string_from_chars(&v)
    }

    /// The date `today()` computes from a count of whole seconds since the
    /// Unix epoch: the day count is `secs / 86400` taken as an `i32`.
    pub fn from_unix_secs(secs: u64) -> (r: Self)
        ensures
            date_from_day_count((secs / 86400) as i32, r),
    {
        let days_since_epoch = secs / 86400;
        let mut year: i32 = 1970;
        #[verifier::truncate]
        let mut remaining_days: i32 = days_since_epoch as i32;
        let ghost n = remaining_days;
        loop
            invariant_except_break
                year >= 1970,
                n >= 0 ==> remaining_days >= 0,
                n >= 0 ==> remaining_days == n - days_before_year(year as int),
                n >= 0 ==> 365 * (year - 1970) <= n - remaining_days,
                n < 0 ==> remaining_days == n && year == 1970,
            ensures
                year >= 1970,
                n >= 0 ==> 0 <= remaining_days < year_length(year as int),
                n >= 0 ==> remaining_days == n - days_before_year(year as int),
                n < 0 ==> remaining_days == n && year == 1970,
            decreases (if remaining_days >= 0 { remaining_days as int } else { 0 }),
        {
            let days_in_year: i32 = if Self::is_leap_year(year) {
                366
            } else {
                365
            };
            if remaining_days < days_in_year {
                break;
            }
            remaining_days = remaining_days - days_in_year;
            year = year + 1;
        }
        let mut month: u32 = 1;
        loop
            invariant_except_break
                1 <= month <= 12,
                n >= 0 ==> 0 <= remaining_days,
                n >= 0 ==> remaining_days == n - days_before_year(year as int) - days_before_month(
                    year as int,
                    month as int,
                ),
                n >= 0 ==> days_before_month(year as int, month as int) + remaining_days
                    < year_length(year as int),
                n < 0 ==> remaining_days == n && year == 1970 && month == 1,
                year >= 1970,
            ensures
                1 <= month <= 12,
                year >= 1970,
                n >= 0 ==> 0 <= remaining_days < month_length(year as int, month as int),
                n >= 0 ==> remaining_days == n - days_before_year(year as int) - days_before_month(
                    year as int,
                    month as int,
                ),
                n < 0 ==> remaining_days == n && year == 1970 && month == 1,
            decreases 12 - month,
        {
            let days_in_month = Self::days_in_month(year, month);
            if remaining_days < days_in_month as i32 {
                break;
            }
            proof {
                lemma_months_fill_year(year as int, month as int);
            }
            remaining_days = remaining_days - days_in_month as i32;
            month = month + 1;
        }
        #[verifier::truncate]
        let day: u32 = remaining_days as u32;
        SimpleDate { year, month, day: day.wrapping_add(1) }
    }

    /// The date of a clock reading: the whole seconds since the Unix epoch,
    /// or `None` for a clock set before the epoch, which counts as 0 seconds
    /// and so gives 1 January 1970.
    pub fn from_clock_reading(reading: Option<u64>) -> (r: Self)
        ensures
            date_of_reading(reading, r),
    {
        match reading {
            Some(secs) => Self::from_unix_secs(secs),
            None => {
                let d = Self::from_unix_secs(0);
                proof {
                    let epoch = SimpleDate { year: 1970, month: 1, day: 1 };
                    assert(days_since_epoch(epoch) == 0);
                    lemma_day_count_identifies_date(d, epoch);
                }
                d
            },
        }
    }

    /// The date of what a clock reports as its time since the Unix epoch:
    /// the date of its whole seconds, or 1 January 1970 where the clock is
    /// set before the epoch and reports an error.
    pub fn from_time_since_epoch(
        since_epoch: Result<std::time::Duration, std::time::SystemTimeError>,
    ) -> (r: Self)
        ensures
            since_epoch is Err ==> r == (SimpleDate { year: 1970, month: 1, day: 1 }),
            since_epoch is Ok ==> exists|reading: Option<u64>|
                reading is Some && #[trigger] date_of_reading(reading, r),
    {
        let reading: Option<u64> = match since_epoch {
            Ok(d) => Some(whole_secs(&d)),
            Err(_) => None,
        };
        let r = Self::from_clock_reading(reading);
        assert(date_of_reading(reading, r));
        r
    }

    /// Get today's date (uses system time): the date of the clock's
    /// whole seconds since the Unix epoch, 1 January 1970 for a clock set
    /// before it.
    pub fn today() -> (r: Self)
        ensures
            exists|reading: Option<u64>| #[trigger] date_of_reading(reading, r),
    {
        let now = system_now();
        let since_epoch = duration_since_unix_epoch(&now);
        let was_err = since_epoch.is_err();
        let r = Self::from_time_since_epoch(since_epoch);
        if was_err {
            assert(date_of_reading(None, r));
        }
        r
    }
}

/// `d` is the date of a clock reading: for whole seconds since the epoch,
/// the date `from_unix_secs` gives for them; for a clock set before the
/// epoch (`None`), 1 January 1970.
pub open spec fn date_of_reading(reading: Option<u64>, d: SimpleDate) -> bool {
    match reading {
        Some(secs) => date_from_day_count((secs / 86400) as i32, d),
        None => d == SimpleDate { year: 1970, month: 1, day: 1 },
    }
}

impl Default for SimpleDate {
    /// Today's date, as `today` gives it.
    fn default() -> (r: Self)
        ensures
            exists|reading: Option<u64>| #[trigger] date_of_reading(reading, r),
    {
        Self::today()
    }
}

/// Going a month forward and then back (or back and then forward) gives
/// the month shown before.
pub proof fn lemma_month_round_trip(d: SimpleDate)
    requires
        1 <= d.month <= 12,
        i32::MIN < d.year < i32::MAX,
    ensures
        month_before(month_after(d)) == d,
        month_after(month_before(d)) == d,
{
}

/// Years before a later year take up at least its preceding years' days.
pub proof fn lemma_days_before_year_grows(y1: int, y2: int)
    requires
        1970 <= y1 <= y2,
    ensures
        days_before_year(y1) + (if y1 < y2 { year_length(y1) } else { 0 }) <= days_before_year(y2),
    decreases y2 - y1,
{
    if y1 < y2 {
        lemma_days_before_year_grows(y1, y2 - 1);
    }
}

/// Months before a later month take up at least the earlier month.
pub proof fn lemma_days_before_month_grows(y: int, m1: int, m2: int)
    requires
        1 <= m1 <= m2,
    ensures
        days_before_month(y, m1) + (if m1 < m2 { month_length(y, m1) } else { 0 })
            <= days_before_month(y, m2),
    decreases m2 - m1,
{
    if m1 < m2 {
        lemma_days_before_month_grows(y, m1, m2 - 1);
    }
}

/// Valid dates from 1970 on with the same day count are the same date, so
/// the date `from_unix_secs` gives is the only one its contract allows.
#[verifier::spinoff_prover]
pub proof fn lemma_day_count_identifies_date(d1: SimpleDate, d2: SimpleDate)
    requires
        valid_date(d1),
        valid_date(d2),
        d1.year >= 1970,
        d2.year >= 1970,
        days_since_epoch(d1) == days_since_epoch(d2),
    ensures
        d1 == d2,
{
    lemma_days_in_year_bound(d1);
    lemma_days_in_year_bound(d2);
    if d1.year < d2.year {
        lemma_days_before_year_grows(d1.year as int, d2.year as int);
        lemma_days_before_month_grows(d2.year as int, 1, d2.month as int);
    } else if d2.year < d1.year {
        lemma_days_before_year_grows(d2.year as int, d1.year as int);
        lemma_days_before_month_grows(d1.year as int, 1, d1.month as int);
    } else if d1.month < d2.month {
        lemma_days_before_month_grows(d1.year as int, d1.month as int, d2.month as int);
    } else if d2.month < d1.month {
        lemma_days_before_month_grows(d1.year as int, d2.month as int, d1.month as int);
    } else {
        assert(d1.day == d2.day);
    }
}

/// A valid date lies inside its year.
pub proof fn lemma_days_in_year_bound(d: SimpleDate)
    requires
        valid_date(d),
    ensures
        days_before_month(d.year as int, d.month as int) + d.day - 1 < year_length(d.year as int),
{
    lemma_months_fill_year(d.year as int, d.month as int);
}

/// The year term of Zeller's congruence, for a year `y >= 0`.
pub open spec fn zeller_year_term(y: int) -> int {
    let k = y % 100;
    let j = y / 100;
    k + k / 4 + j / 4 + 5 * j
}

/// The month term of Zeller's congruence (March = 3 ... February = 14).
pub open spec fn zeller_month_term(mm: int) -> int {
    (13 * (mm + 1)) / 5
}

/// For non-negative years Zeller's weekday is the sum of its month and
/// year terms modulo 7.
#[verifier::spinoff_prover]
proof fn lemma_zeller_terms(y: int, m: int)
    requires
        1 <= m <= 12,
        y >= 1,
    ensures
        zeller_first_weekday(y, m) == (zeller_month_term(if m < 3 { m + 12 } else { m })
            + zeller_year_term(if m < 3 { y - 1 } else { y })) % 7,
{
    let yy = if m < 3 {
        y - 1
    } else {
        y
    };
    let mm = if m < 3 {
        m + 12
    } else {
        m
    };
    assert(quot(yy, 100) == yy / 100);
    assert(rem(yy, 100) == yy % 100);
    let k = yy % 100;
    let j = yy / 100;
    assert(quot(k, 4) == k / 4);
    assert(quot(j, 4) == j / 4);
    let t = 1 + (13 * (mm + 1)) / 5 + k + k / 4 + j / 4 + 5 * j;
    assert(t >= 0);
    assert(rem(t, 7) == t % 7);
    assert(rem(t % 7 + 6, 7) == (t % 7 + 6) % 7);
    assert((t % 7 + 6) % 7 == (t + 6) % 7) by (nonlinear_arith);
}

/// Zeller's year term moves by one weekday from one year to the next, and
/// by two after a leap day.
#[verifier::spinoff_prover]
proof fn lemma_zeller_year_step(y: int)
    requires
        y >= 1,
    ensures
        (zeller_year_term(y) - zeller_year_term(y - 1)) % 7 == (if is_leap(y) { 2int } else { 1int }),
{
    lemma_zeller_year_term_is_day_count(y);
    lemma_zeller_year_term_is_day_count(y - 1);
    lemma_quotient_step(y, 4);
    lemma_quotient_step(y, 100);
    lemma_quotient_step(y, 400);
    lemma_divisible_chain(y);
    let d1 = y + y / 4 - y / 100 + y / 400;
    let d0 = (y - 1) + (y - 1) / 4 - (y - 1) / 100 + (y - 1) / 400;
    let s = d1 - d0;
    assert(s == if is_leap(y) { 2int } else { 1int });
    let p = (zeller_year_term(y) - d1) / 7;
    let q = (zeller_year_term(y - 1) - d0) / 7;
    lemma_multiple_of_seven(zeller_year_term(y) - d1);
    lemma_multiple_of_seven(zeller_year_term(y - 1) - d0);
    assert(zeller_year_term(y) - zeller_year_term(y - 1) == 7 * (p - q) + s);
    lemma_mod_seven_shift(p - q, s);
}

/// A multiple of 7 is 7 times its quotient.
proof fn lemma_multiple_of_seven(x: int)
    by (nonlinear_arith)
    requires
        x % 7 == 0,
    ensures
        x == 7 * (x / 7),
{
}

/// Adding whole weeks does not change a weekday offset.
proof fn lemma_mod_seven_shift(k: int, s: int)
    by (nonlinear_arith)
    requires
        0 <= s < 7,
    ensures
        (7 * k + s) % 7 == s,
{
}

/// Going from `y - 1` to `y` raises the quotient by `d` exactly when `d`
/// divides `y`.
proof fn lemma_quotient_step(y: int, d: int)
    by (nonlinear_arith)
    requires
        d > 0,
    ensures
        y / d - (y - 1) / d == (if y % d == 0 { 1int } else { 0int }),
{
    let q = (y - 1) / d;
    let r = (y - 1) % d;
    assert(y - 1 == q * d + r);
    assert(0 <= r < d);
    if r + 1 == d {
        assert(y == (q + 1) * d);
    } else {
        assert(y == q * d + (r + 1));
    }
}

/// A multiple of 400 is a multiple of 100, and a multiple of 100 is one of 4.
proof fn lemma_divisible_chain(y: int)
    ensures
        y % 400 == 0 ==> y % 100 == 0,
        y % 100 == 0 ==> y % 4 == 0,
{
    if y % 400 == 0 {
        assert(y == 400 * (y / 400));
        assert(y == 100 * (4 * (y / 400)));
    }
    if y % 100 == 0 {
        assert(y == 100 * (y / 100));
        assert(y == 4 * (25 * (y / 100)));
    }
}

/// Zeller's year term agrees modulo 7 with the Gregorian day count
/// y + y/4 - y/100 + y/400.
#[verifier::spinoff_prover]
proof fn lemma_zeller_year_term_is_day_count(y: int)
    requires
        y >= 0,
    ensures
        (zeller_year_term(y) - (y + y / 4 - y / 100 + y / 400)) % 7 == 0,
{
    let k = y % 100;
    let j = y / 100;
    assert(y == 100 * j + k);
    assert(y / 4 == 25 * j + k / 4);
    assert(y / 400 == j / 4);
    assert(zeller_year_term(y) - (y + y / 4 - y / 100 + y / 400) == -119 * j);
    assert((-119 * j) % 7 == 0) by (nonlinear_arith);
}

/// Apart from February, the month term grows by the month's length modulo 7.
#[verifier::spinoff_prover]
proof fn lemma_month_term_step(y: int, m: int)
    requires
        1 <= m <= 12,
        m != 2,
    ensures
        (zeller_month_term(if m == 1 { 14int } else if m == 12 { 13int } else { m + 1 })
            - zeller_month_term(if m == 1 { 13int } else { m }) - month_length(y, m)) % 7 == 0,
{
    if m == 1 {
        assert(zeller_month_term(14) == 39);
        assert(zeller_month_term(13) == 36);
    } else if m == 3 {
        assert(zeller_month_term(4) == 13);
        assert(zeller_month_term(3) == 10);
    } else if m == 4 {
        assert(zeller_month_term(5) == 15);
    } else if m == 5 {
        assert(zeller_month_term(6) == 18);
        assert(zeller_month_term(5) == 15);
    } else if m == 6 {
        assert(zeller_month_term(7) == 20);
        assert(zeller_month_term(6) == 18);
    } else if m == 7 {
        assert(zeller_month_term(8) == 23);
        assert(zeller_month_term(7) == 20);
    } else if m == 8 {
        assert(zeller_month_term(9) == 26);
        assert(zeller_month_term(8) == 23);
    } else if m == 9 {
        assert(zeller_month_term(10) == 28);
        assert(zeller_month_term(9) == 26);
    } else if m == 10 {
        assert(zeller_month_term(11) == 31);
        assert(zeller_month_term(10) == 28);
    } else if m == 11 {
        assert(zeller_month_term(12) == 33);
        assert(zeller_month_term(11) == 31);
    } else {
        assert(zeller_month_term(13) == 36);
        assert(zeller_month_term(12) == 33);
    }
}

/// Across February the year term changes too: from March the weekday is
/// February's moved on by February's length.
#[verifier::spinoff_prover]
proof fn lemma_february_step(y: int)
    requires
        y >= 1,
    ensures
        zeller_first_weekday(y, 3) == (zeller_first_weekday(y, 2) + month_length(y, 2)) % 7,
{
    lemma_zeller_terms(y, 2);
    lemma_zeller_terms(y, 3);
    lemma_zeller_year_step(y);
    assert(zeller_month_term(14) == 39);
    assert(zeller_month_term(3) == 10);
    let a = zeller_year_term(y - 1);
    let b = zeller_year_term(y);
    let l = month_length(y, 2);
    assert(((b - a) % 7 == l - 27) ==> (10 + b) % 7 == ((39 + a) % 7 + l) % 7)
        by (nonlinear_arith);
}

/// The weekday of the first of the next month is this month's weekday
/// moved on by the length of this month, for every year from 1 on.
#[verifier::spinoff_prover]
pub proof fn lemma_next_month_weekday(y: int, m: int)
    requires
        1 <= m <= 12,
        y >= 1,
    ensures
        m < 12 ==> zeller_first_weekday(y, m + 1) == (zeller_first_weekday(y, m) + month_length(
            y,
            m,
        )) % 7,
        m == 12 ==> zeller_first_weekday(y + 1, 1) == (zeller_first_weekday(y, 12) + 31) % 7,
{
    if m == 2 {
        lemma_february_step(y);
    } else {
        lemma_zeller_terms(y, m);
        if m < 12 {
            lemma_zeller_terms(y, m + 1);
        } else {
            lemma_zeller_terms(y + 1, 1);
        }
        lemma_month_term_step(y, m);
        let a = zeller_year_term(if m < 3 { y - 1 } else { y });
        let t0 = zeller_month_term(if m == 1 { 13int } else { m });
        let t1 = zeller_month_term(if m == 1 { 14int } else if m == 12 { 13int } else { m + 1 });
        let l = month_length(y, m);
        assert((t1 - t0 - l) % 7 == 0 ==> (t1 + a) % 7 == ((t0 + a) % 7 + l) % 7)
            by (nonlinear_arith);
    }
}

/// The calendar grid starts each month on the weekday reached by counting
/// days from Thursday 1 January 1970 (0 = Sunday).
#[verifier::spinoff_prover]
pub proof fn lemma_first_weekday_counts_days(y: int, m: int)
    requires
        1 <= m <= 12,
        y >= 1970,
    ensures
        zeller_first_weekday(y, m) == (4 + days_before_year(y) + days_before_month(y, m)) % 7,
    decreases y - 1970, m,
{
    if m > 1 {
        lemma_first_weekday_counts_days(y, m - 1);
        lemma_next_month_weekday(y, m - 1);
        let a = 4 + days_before_year(y) + days_before_month(y, m - 1);
        let l = month_length(y, m - 1);
        assert((a % 7 + l) % 7 == (a + l) % 7) by (nonlinear_arith);
    } else if y > 1970 {
        lemma_first_weekday_counts_days(y - 1, 12);
        lemma_next_month_weekday(y - 1, 12);
        lemma_months_fill_year(y - 1, 12);
        let a = 4 + days_before_year(y - 1) + days_before_month(y - 1, 12);
        assert((a % 7 + 31) % 7 == (a + 31) % 7) by (nonlinear_arith);
    } else {
        assert(quot(1969, 100) == 19);
        assert(rem(1969, 100) == 69);
        assert(quot(69, 4) == 17);
        assert(quot(19, 4) == 4);
        assert(rem(222int, 7) == 5);
        assert(rem(11int, 7) == 4);
        assert(zeller_first_weekday(1970, 1) == 4);
    }
}

/// Months 1..12 of a year add up to the year's length.
pub proof fn lemma_months_fill_year(y: int, m: int)
    requires
        1 <= m <= 12,
    ensures
        days_before_month(y, m) + month_length(y, m) <= year_length(y),
        m == 12 ==> days_before_month(y, m) + month_length(y, m) == year_length(y),
{
    reveal_with_fuel(days_before_month, 13);
}

/// The month shown before the given one.
pub open spec fn month_before(d: SimpleDate) -> SimpleDate {
    if d.month == 1 {
        SimpleDate { month: 12, year: (d.year - 1) as i32, ..d }
    } else {
        SimpleDate { month: (d.month - 1) as u32, ..d }
    }
}

/// The month shown after the given one.
pub open spec fn month_after(d: SimpleDate) -> SimpleDate {
    if d.month == 12 {
        SimpleDate { month: 1, year: (d.year + 1) as i32, ..d }
    } else {
        SimpleDate { month: (d.month + 1) as u32, ..d }
    }
}

/// The day of the month shown in calendar cell (`col`, `row`) of the
/// month `d` (seven columns from Sunday, the first row holding the 1st),
/// if the cell holds one.
pub open spec fn day_in_cell(d: SimpleDate, col: u32, row: u32) -> Option<u32> {
    let idx = row * 7 + col;
    let first = first_weekday(d.year as int, d.month);
    if idx >= first {
        let day = idx - first + 1;
        if 1 <= day <= month_length(d.year as int, d.month as int) {
            Some(day as u32)
        } else {
            None
        }
    } else {
        None
    }
}

/// Where a left click on the date picker landed.
#[derive(Clone, Copy, Debug, PartialEq, Eq, Structural)]
pub enum CalendarTarget {
    /// The field showing the chosen date.
    Header,
    /// The previous-month arrow of the open calendar.
    PrevMonth,
    /// The next-month arrow of the open calendar.
    NextMonth,
    /// Elsewhere on the open calendar (the day grid).
    Calendar,
    /// Outside the picker.
    Outside,
}

/// Date picker with calendar popup
pub struct DatePicker {
    pub value: SimpleDate,
    /// Month being displayed in calendar
    pub display_month: SimpleDate,
    pub open: bool,
    pub hovered_day: Option<u32>,
}

impl DatePicker {
    /// A closed picker showing and holding today's date.
    pub fn new() -> (r: Self)
        ensures
            exists|reading: Option<u64>| #[trigger] date_of_reading(reading, r.value),
            r.value == r.display_month,
            !r.open,
            r.hovered_day is None,
    {
        let today = SimpleDate::today();
        let ghost reading = choose|reading: Option<u64>| #[trigger] date_of_reading(reading, today);
        let picker = DatePicker { value: today, display_month: today, open: false, hovered_day: None };
        assert(date_of_reading(reading, picker.value));
        picker
    }

    pub fn with_value(self, date: SimpleDate) -> (r: Self)
        ensures
            r == (DatePicker { value: date, display_month: date, ..self }),
    {
        let mut p = self;
        p.value = date;
        p.display_month = date;
        p
    }

    pub fn prev_month(&mut self)
        requires
            old(self).display_month.month == 1 ==> old(self).display_month.year > i32::MIN,
            old(self).display_month.month != 1 ==> old(self).display_month.month >= 1,
        ensures
            *final(self) == (DatePicker { display_month: month_before(old(self).display_month), ..*old(self) }),
    {
        if self.display_month.month == 1 {
            self.display_month.month = 12;
            self.display_month.year = self.display_month.year - 1;
        } else {
            self.display_month.month = self.display_month.month - 1;
        }
    }

    pub fn next_month(&mut self)
        requires
            old(self).display_month.month == 12 ==> old(self).display_month.year < i32::MAX,
            old(self).display_month.month != 12 ==> old(self).display_month.month < u32::MAX,
        ensures
            *final(self) == (DatePicker { display_month: month_after(old(self).display_month), ..*old(self) }),
    {
        if self.display_month.month == 12 {
            self.display_month.month = 1;
            self.display_month.year = self.display_month.year + 1;
        } else {
            self.display_month.month = self.display_month.month + 1;
        }
    }

    /// The pointer is over calendar cell (`col`, `row`) of the open
    /// calendar's day grid, or (`None`) anywhere else.
    pub fn point_at_cell(&mut self, cell: Option<(u32, u32)>)
        requires
            cell matches Some((c, r)) ==> {
                &&& weekday_computable(old(self).display_month)
                &&& r * 7 + c <= u32::MAX
                &&& r * 7 + c - first_weekday(
                    old(self).display_month.year as int,
                    old(self).display_month.month,
                ) < u32::MAX
            },
        ensures
            *final(self) == (DatePicker {
                hovered_day: match cell {
                    Some((c, r)) => day_in_cell(old(self).display_month, c, r),
                    None => None,
                },
                ..*old(self)
            }),
    {
        match cell {
            Some((col, row)) => {
                let first_dow = self.display_month.first_day_of_month();
                let day_idx = row * 7 + col;
                if day_idx >= first_dow {
                    let day = day_idx - first_dow + 1;
                    let max_days = SimpleDate::days_in_month(
                        self.display_month.year,
                        self.display_month.month,
                    );
                    if day >= 1 && day <= max_days {
                        self.hovered_day = Some(day);
                    } else {
                        self.hovered_day = None;
                    }
                } else {
                    self.hovered_day = None;
                }
            },
            None => {
                self.hovered_day = None;
            },
        }
    }

    /// A left click: the header opens or closes the calendar, the arrows
    /// change the shown month, a hovered day of the grid is chosen (and
    /// the calendar closes), and a click outside closes it. Returns whether
    /// the click was consumed.
    pub fn click(&mut self, target: CalendarTarget) -> (consumed: bool)
        requires
            target == CalendarTarget::PrevMonth ==> {
                &&& old(self).display_month.month == 1 ==> old(self).display_month.year > i32::MIN
                &&& old(self).display_month.month != 1 ==> old(self).display_month.month >= 1
            },
            target == CalendarTarget::NextMonth ==> {
                &&& old(self).display_month.month == 12 ==> old(self).display_month.year < i32::MAX
                &&& old(self).display_month.month != 12 ==> old(self).display_month.month < u32::MAX
            },
        ensures
            match target {
                CalendarTarget::Header => consumed && *final(self) == (DatePicker {
                    open: !old(self).open,
                    ..*old(self)
                }),
                CalendarTarget::PrevMonth => consumed && *final(self) == (DatePicker {
                    display_month: month_before(old(self).display_month),
                    ..*old(self)
                }),
                CalendarTarget::NextMonth => consumed && *final(self) == (DatePicker {
                    display_month: month_after(old(self).display_month),
                    ..*old(self)
                }),
                CalendarTarget::Calendar => match old(self).hovered_day {
                    Some(day) => consumed && *final(self) == (DatePicker {
                        value: SimpleDate {
                            year: old(self).display_month.year,
                            month: old(self).display_month.month,
                            day,
                        },
                        open: false,
                        ..*old(self)
                    }),
                    None => !consumed && *final(self) == *old(self),
                },
                CalendarTarget::Outside => !consumed && *final(self) == (DatePicker {
                    open: false,
                    ..*old(self)
                }),
            },
    {
        match target {
            CalendarTarget::Header => {
                self.open = !self.open;
                true
            },
            CalendarTarget::PrevMonth => {
                self.prev_month();
                true
            },
            CalendarTarget::NextMonth => {
                self.next_month();
                true
            },
            CalendarTarget::Calendar => {
                if let Some(day) = self.hovered_day {
                    self.value = SimpleDate::new(
                        self.display_month.year,
                        self.display_month.month,
                        day,
                    );
                    self.open = false;
                    true
                } else {
                    false
                }
            },
            CalendarTarget::Outside => {
                self.open = false;
                false
            },
        }
    }
}

impl Default for DatePicker {
    fn default() -> (r: Self)
        ensures
            exists|reading: Option<u64>| #[trigger] date_of_reading(reading, r.value),
            r.value == r.display_month,
            !r.open,
            r.hovered_day is None,
    {
        Self::new()
    }
}

} // verus!
