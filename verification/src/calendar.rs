//! A-share trading calendar and date parsing.
//!
//! Dates are held as chrono's day numbers (`NaiveDate::num_days_from_ce`,
//! 0001-01-01 = day 1). chrono converts between day numbers and calendar
//! fields and parses date text; the calendar rules of the exchange (weekends,
//! the holiday table, the next trading day) are this library's own logic.

use vstd::prelude::*;
use vstd::string::*;
use vstd::utf8::{encode_utf8, is_char_boundary};
use crate::text::{trim, trim_str, to_chars, string_of_range, chars_ascii_digits, ascii_digits, is_ascii_digit, is_ascii_digit_char};
use chrono::{Datelike, NaiveDate, TimeZone, Utc};

verus! {

/// Day number of chrono's earliest date (-262143-01-01).
pub const MIN_DAYS: i32 = -95746129;

/// Day number of chrono's latest date (+262142-12-31).
pub const MAX_DAYS: i32 = 95745399;

/// A calendar date, held as its day number from 0001-01-01 (day 1).
#[derive(Clone, Copy, Debug, PartialEq, Eq, Structural)]
pub struct Date {
    pub days: i32,
}

/// First year of chrono's range.
pub open spec fn min_year() -> int {
    -262143
}

/// Last year of chrono's range.
pub open spec fn max_year() -> int {
    262142
}

/// Leap year of the proleptic Gregorian calendar.
pub open spec fn is_leap_year(y: int) -> bool {
    y % 4 == 0 && (y % 100 != 0 || y % 400 == 0)
}

/// Days in month `m` of year `y`.
pub open spec fn month_len(y: int, m: int) -> int {
    if m == 2 {
        if is_leap_year(y) { 29 } else { 28 }
    } else if m == 4 || m == 6 || m == 9 || m == 11 {
        30
    } else {
        31
    }
}

/// Days from 0001-01-01 (day 1) to the day before 1 January of `y`.
pub open spec fn days_before_year(y: int) -> int {
    let p = y - 1;
    365 * p + p / 4 - p / 100 + p / 400
}

/// Days of year `y` before the first of month `m`.
pub open spec fn days_before_month(y: int, m: int) -> int {
    let base: int = if m <= 1 { 0 } else if m == 2 { 31 } else if m == 3 { 59 } else if m == 4 { 90 }
        else if m == 5 { 120 } else if m == 6 { 151 } else if m == 7 { 181 } else if m == 8 { 212 }
        else if m == 9 { 243 } else if m == 10 { 273 } else if m == 11 { 304 } else { 334 };
    if m > 2 && is_leap_year(y) { base + 1 } else { base }
}

/// A date that chrono represents.
pub open spec fn valid_ymd(y: int, m: int, d: int) -> bool {
    min_year() <= y <= max_year() && 1 <= m <= 12 && 1 <= d <= month_len(y, m)
}

/// The day number of a date of the proleptic Gregorian calendar.
pub open spec fn day_number(y: int, m: int, d: int) -> int {
    days_before_year(y) + days_before_month(y, m) + d
}

/// The day number of `(year, month, day)`, `None` where chrono has no such
/// date.
pub open spec fn days_from_civil(year: int, month: int, day: int) -> Option<int> {
    if valid_ymd(year, month, day) {
        Some(day_number(year, month, day))
    } else {
        None
    }
}

/// `(year, month, day)` of a day number, `None` outside chrono's range.
pub open spec fn civil_from_days(days: int) -> Option<(int, int, int)> {
    if exists|y: int, m: int, d: int| valid_ymd(y, m, d) && #[trigger] day_number(y, m, d) == days {
        Some(choose|t: (int, int, int)| valid_ymd(t.0, t.1, t.2) && day_number(t.0, t.1, t.2) == days)
    } else {
        None
    }
}

proof fn lemma_floor_step(y: int, k: int)
    requires
        k > 0,
    ensures
        y / k - (y - 1) / k == (if y % k == 0 { 1int } else { 0int }),
{
    vstd::arithmetic::div_mod::lemma_fundamental_div_mod(y, k);
    vstd::arithmetic::div_mod::lemma_fundamental_div_mod(y - 1, k);
    vstd::arithmetic::div_mod::lemma_mod_bound(y, k);
    vstd::arithmetic::div_mod::lemma_mod_bound(y - 1, k);
    let q = y / k;
    let q1 = (y - 1) / k;
    let r = y % k;
    let r1 = (y - 1) % k;
    let e = q - q1;
    assert(k * q - k * q1 == k * e) by (nonlinear_arith)
        requires
            e == q - q1,
    ;
    assert(k * e == 1 + r1 - r);
    if e >= 2 {
        assert(k * e >= 2 * k) by (nonlinear_arith)
            requires
                e >= 2,
                k > 0,
        ;
        assert(false);
    }
    if e <= -1 {
        assert(k * e <= -k) by (nonlinear_arith)
            requires
                e <= -1,
                k > 0,
        ;
        assert(false);
    }
    if e == 1 {
        assert(k * e == k) by (nonlinear_arith)
            requires
                e == 1,
        ;
        assert(r == 0);
    } else {
        assert(e == 0);
        assert(k * e == 0);
        assert(r != 0);
    }
}

proof fn lemma_year_len(y: int)
    ensures
        days_before_year(y + 1) == days_before_year(y) + (if is_leap_year(y) { 366int } else { 365int }),
{
    lemma_floor_step(y, 4);
    lemma_floor_step(y, 100);
    lemma_floor_step(y, 400);
    assert(y % 400 == 0 ==> y % 100 == 0 && y % 4 == 0) by {
        vstd::arithmetic::div_mod::lemma_fundamental_div_mod(y, 400);
        vstd::arithmetic::div_mod::lemma_fundamental_div_mod(y, 100);
        vstd::arithmetic::div_mod::lemma_fundamental_div_mod(y, 4);
    }
    assert(y % 100 == 0 ==> y % 4 == 0) by {
        vstd::arithmetic::div_mod::lemma_fundamental_div_mod(y, 100);
        vstd::arithmetic::div_mod::lemma_fundamental_div_mod(y, 4);
    }
}

proof fn lemma_years_ordered(y1: int, y2: int)
    requires
        y1 < y2,
    ensures
        days_before_year(y1 + 1) <= days_before_year(y2),
        days_before_year(y1) + 365 <= days_before_year(y2),
    decreases y2 - y1,
{
    lemma_year_len(y1);
    if y1 + 1 < y2 {
        lemma_years_ordered(y1 + 1, y2);
    }
}

proof fn lemma_within_year(y: int, m: int, d: int)
    requires
        1 <= m <= 12,
        1 <= d <= month_len(y, m),
    ensures
        1 <= days_before_month(y, m) + d <= (if is_leap_year(y) { 366int } else { 365int }),
        forall|m2: int| m < m2 <= 12 ==> days_before_month(y, m) + d < #[trigger] days_before_month(y, m2) + 1,
{
}

proof fn lemma_day_number_unique(a: (int, int, int), b: (int, int, int))
    requires
        valid_ymd(a.0, a.1, a.2),
        valid_ymd(b.0, b.1, b.2),
        day_number(a.0, a.1, a.2) == day_number(b.0, b.1, b.2),
    ensures
        a == b,
{
    lemma_within_year(a.0, a.1, a.2);
    lemma_within_year(b.0, b.1, b.2);
    lemma_year_len(a.0);
    lemma_year_len(b.0);
    if a.0 < b.0 {
        lemma_years_ordered(a.0, b.0);
    } else if b.0 < a.0 {
        lemma_years_ordered(b.0, a.0);
    } else if a.1 < b.1 {
        assert(days_before_month(a.0, a.1) + a.2 < days_before_month(a.0, b.1) + 1);
    } else if b.1 < a.1 {
        assert(days_before_month(b.0, b.1) + b.2 < days_before_month(b.0, a.1) + 1);
    }
}

proof fn lemma_day_number_range(y: int, m: int, d: int)
    requires
        valid_ymd(y, m, d),
    ensures
        MIN_DAYS <= day_number(y, m, d) <= MAX_DAYS,
{
    lemma_within_year(y, m, d);
    lemma_year_len(y);
    assert(days_before_year(min_year()) + 1 == MIN_DAYS);
    assert(days_before_year(max_year() + 1) == MAX_DAYS);
    if min_year() < y {
        lemma_years_ordered(min_year(), y);
    }
    if y < max_year() {
        lemma_years_ordered(y, max_year() + 1);
    }
}

/// The date `(y, m, d)` is what `civil_from_days` gives for its day number.
proof fn lemma_civil_of(y: int, m: int, d: int)
    requires
        valid_ymd(y, m, d),
    ensures
        civil_from_days(day_number(y, m, d)) == Some((y, m, d)),
{
    let n = day_number(y, m, d);
    assert(valid_ymd(y, m, d) && day_number(y, m, d) == n);
    let t = choose|t: (int, int, int)| valid_ymd(t.0, t.1, t.2) && day_number(t.0, t.1, t.2) == n;
    assert(valid_ymd((y, m, d).0, (y, m, d).1, (y, m, d).2) && day_number((y, m, d).0, (y, m, d).1, (y, m, d).2) == n);
    lemma_day_number_unique(t, (y, m, d));
}

/// A date of chrono's range reads back from its day number: the number
/// lies in the range, and the date it names is the one it came from.
pub proof fn law_date_round_trip(y: int, m: int, d: int)
    requires
        valid_ymd(y, m, d),
    ensures
        days_from_civil(y, m, d) == Some(day_number(y, m, d)),
        MIN_DAYS <= day_number(y, m, d) <= MAX_DAYS,
        civil_from_days(day_number(y, m, d)) == Some((y, m, d)),
{
    lemma_day_number_range(y, m, d);
    lemma_civil_of(y, m, d);
}

/// No date of chrono's range has a day number outside it.
proof fn lemma_civil_out_of_range(days: int)
    requires
        days < MIN_DAYS || days > MAX_DAYS,
    ensures
        civil_from_days(days) is None,
{
    if exists|y: int, m: int, d: int| valid_ymd(y, m, d) && #[trigger] day_number(y, m, d) == days {
        let (y, m, d) = choose|y: int, m: int, d: int| valid_ymd(y, m, d) && #[trigger] day_number(y, m, d) == days;
        lemma_day_number_range(y, m, d);
    }
}

/// The day number of the date chrono's `NaiveDate::parse_from_str` reads from
/// the bytes `s` with the format `fmt`, `None` where it fails.
pub uninterp spec fn parsed_date(s: Seq<u8>, fmt: Seq<u8>) -> Option<int>;

/// The day number of the UTC calendar date of a Unix timestamp in
/// milliseconds (1970-01-01 is day 719163), `None` outside chrono's range.
pub open spec fn utc_date_of_millis(ms: int) -> Option<int> {
    let day = ms / 86_400_000 + 719_163;
    if MIN_DAYS <= day <= MAX_DAYS {
        Some(day)
    } else {
        None
    }
}

/// `NaiveDate::from_num_days_from_ce_opt` followed by `year`, `month`,
/// `day` (chrono). Claims: a date comes back exactly on chrono's range, and
/// it is the valid date whose day number is `days`.
#[verifier::external_body]
fn ymd_of_days(days: i32) -> (r: Option<(i32, u32, u32)>)
    ensures
        r is Some <==> MIN_DAYS <= days <= MAX_DAYS,
        r matches Some(t) ==> valid_ymd(t.0 as int, t.1 as int, t.2 as int) && day_number(
            t.0 as int,
            t.1 as int,
            t.2 as int,
        ) == days,
{
    match NaiveDate::from_num_days_from_ce_opt(days) {
        Some(d) => Some((d.year(), d.month(), d.day())),
        None => None,
    }
}

/// `NaiveDate::from_ymd_opt` followed by `num_days_from_ce` (chrono).
/// Claims: a day number comes back exactly for a valid date of chrono's
/// range, and it is that date's day number.
#[verifier::external_body]
fn days_of_ymd(year: i32, month: u32, day: u32) -> (r: Option<i32>)
    ensures
        r is Some <==> valid_ymd(year as int, month as int, day as int),
        r matches Some(n) ==> n == day_number(year as int, month as int, day as int),
{
    match NaiveDate::from_ymd_opt(year, month, day) {
        Some(d) => Some(d.num_days_from_ce()),
        None => None,
    }
}

/// `NaiveDate::parse_from_str` followed by `num_days_from_ce` (chrono).
/// Claims: the result is the named `parsed_date` of the two strings' bytes,
/// and a date it returns lies in chrono's range.
#[verifier::external_body]
fn parse_days(s: &str, fmt: &str) -> (r: Option<i32>)
    ensures
        match r {
            Some(n) => parsed_date(s.spec_bytes(), fmt.spec_bytes()) == Some(n as int),
            None => parsed_date(s.spec_bytes(), fmt.spec_bytes()) is None,
        },
        r matches Some(n) ==> MIN_DAYS <= n <= MAX_DAYS,
{
    match NaiveDate::parse_from_str(s, fmt) {
        Ok(d) => Some(d.num_days_from_ce()),
        Err(_) => None,
    }
}

/// `Utc.timestamp_millis_opt(ms).single()` followed by `date_naive` and
/// `num_days_from_ce` (chrono). Claims: the result is `utc_date_of_millis`,
/// the floor of the days since 1970-01-01 taken into chrono's day numbers.
#[verifier::external_body]
fn days_of_unix_millis(ms: i64) -> (r: Option<i32>)
    ensures
        match r {
            Some(n) => utc_date_of_millis(ms as int) == Some(n as int),
            None => utc_date_of_millis(ms as int) is None,
        },
{
    match Utc.timestamp_millis_opt(ms).single() {
        Some(dt) => Some(dt.date_naive().num_days_from_ce()),
        None => None,
    }
}

impl Date {
    /// The date with the given year, month and day, if it exists.
    pub fn from_ymd_opt(year: i32, month: u32, day: u32) -> (r: Option<Date>)
        ensures
            match r {
                Some(d) => days_from_civil(year as int, month as int, day as int) == Some(
                    d.days as int,
                ),
                None => days_from_civil(year as int, month as int, day as int) is None,
            },
            r matches Some(d) ==> MIN_DAYS <= d.days <= MAX_DAYS && civil_from_days(
                d.days as int,
            ) == Some((year as int, month as int, day as int)),
    {
        match days_of_ymd(year, month, day) {
            Some(n) => {
                proof {
                    lemma_day_number_range(year as int, month as int, day as int);
                    lemma_civil_of(year as int, month as int, day as int);
                }
                Some(Date { days: n })
            },
            None => None,
        }
    }

    /// `(year, month, day)` of the date, if it lies in chrono's range.
    pub fn ymd(&self) -> (r: Option<(i32, u32, u32)>)
        ensures
            match r {
                Some(t) => civil_from_days(self.days as int) == Some(
                    (t.0 as int, t.1 as int, t.2 as int),
                ),
                None => civil_from_days(self.days as int) is None,
            },
            MIN_DAYS <= self.days <= MAX_DAYS ==> r is Some,
    {
        let r = ymd_of_days(self.days);
        proof {
            match r {
                Some(t) => lemma_civil_of(t.0 as int, t.1 as int, t.2 as int),
                None => lemma_civil_out_of_range(self.days as int),
            }
        }
        r
    }

    /// The date `n` days later.
    pub fn add_days(&self, n: i32) -> (r: Date)
        requires
            i32::MIN <= self.days + n <= i32::MAX,
        ensures
            r.days == self.days + n,
    {
        Date { days: self.days + n }
    }
}

/// The day number of an optional date.
pub open spec fn opt_days(r: Option<Date>) -> Option<int> {
    match r {
        Some(d) => Some(d.days as int),
        None => None,
    }
}

/// Weekday of a day number: 0 = Monday, ..., 6 = Sunday (0001-01-01 was a
/// Monday in the proleptic Gregorian calendar).
pub open spec fn weekday_index(days: int) -> int {
    (days + 6) % 7
}

/// Weekday of a date: 0 = Monday, ..., 6 = Sunday.
pub fn weekday_of(d: Date) -> (r: u32)
    ensures
        r == weekday_index(d.days as int),
        r < 7,
{
    let m: i64 = d.days as i64 % 7;
    assert(m == (d.days as int) % 7 || m == (d.days as int) % 7 - 7);
    ((m + 13) % 7) as u32
}

/// Exchange holidays of 2025 and 2026, written as `yyyymmdd`.
pub const HOLIDAYS: [u32; 48] = [
    20250101,
    20250128, 20250129, 20250130, 20250131, 20250201, 20250202, 20250203, 20250204,
    20250404, 20250405, 20250406,
    20250501, 20250502, 20250505,
    20250531, 20250601, 20250602,
    20251001, 20251002, 20251003, 20251006, 20251007, 20251008,
    20260101, 20260102,
    20260216, 20260217, 20260218, 20260219, 20260220, 20260221, 20260222, 20260223,
    20260405, 20260406,
    20260501, 20260502, 20260503, 20260504,
    20260619, 20260620, 20260621,
    20261001, 20261002, 20261005, 20261006, 20261007,
];

/// `yyyymmdd` key of a calendar date.
pub open spec fn ymd_key(y: int, m: int, d: int) -> int {
    y * 10000 + m * 100 + d
}

/// The date is one of the listed exchange holidays.
pub open spec fn is_holiday_spec(days: int) -> bool {
    match civil_from_days(days) {
        Some(t) => exists|i: int| 0 <= i < 48 && HOLIDAYS@[i] as int == ymd_key(t.0, t.1, t.2),
        None => false,
    }
}

/// The exchange is closed on the date: weekend or listed holiday.
pub open spec fn is_closed_spec(days: int) -> bool {
    weekday_index(days) >= 5 || is_holiday_spec(days)
}

/// The date is one of the listed exchange holidays.
pub fn is_ashare_holiday(date: Date) -> (r: bool)
    ensures
        r == is_holiday_spec(date.days as int),
{
    match date.ymd() {
        Some((y, m, d)) => {
            let key: i64 = y as i64 * 10000 + m as i64 * 100 + d as i64;
            let mut i: usize = 0;
            while i < 48
                invariant
                    i <= 48,
                    key == ymd_key(y as int, m as int, d as int),
                    civil_from_days(date.days as int) == Some((y as int, m as int, d as int)),
                    forall|k: int| 0 <= k < i ==> HOLIDAYS@[k] as int != key,
                decreases 48 - i,
            {
                if HOLIDAYS[i] as i64 == key {
                    assert(HOLIDAYS@[i as int] as int == ymd_key(y as int, m as int, d as int));
                    assert(is_holiday_spec(date.days as int));
                    return true;
                }
                i += 1;
            }
            false
        },
        None => false,
    }
}

/// The exchange is closed on the date (weekend or holiday).
pub fn is_ashare_closed(date: Date) -> (r: bool)
    ensures
        r == is_closed_spec(date.days as int),
{
    weekday_of(date) >= 5 || is_ashare_holiday(date)
}

/// The exchange is closed on every day after `from` before `from + j`.
pub open spec fn closed_run(from: int, j: int) -> bool {
    forall|i: int| 1 <= i < j ==> #[trigger] is_closed_spec(from + i)
}

/// Every day that the search for the next trading day after `from` steps
/// onto lies in chrono's range: the day after `from`, and each following
/// day up to the 21st that the days before it, all closed, lead to.
pub open spec fn next_trading_day_in_range(from: int) -> bool {
    forall|j: int| 1 <= j <= 21 && #[trigger] closed_run(from, j) ==> from + j <= MAX_DAYS
}

/// The next trading day after `from`, as `next_trading_day` finds it;
/// `None` where the search would step past chrono's last date.
pub fn try_next_trading_day(from: Date) -> (r: Option<Date>)
    ensures
        r is Some <==> next_trading_day_in_range(from.days as int),
        r matches Some(d) ==> from.days < d.days <= from.days + 21,
        r matches Some(d) ==> (d.days <= from.days + 20 ==> !is_closed_spec(d.days as int)),
        r matches Some(d) ==> forall|k: int| from.days < k < d.days ==> is_closed_spec(k),
{
    if from.days >= MAX_DAYS {
        assert(closed_run(from.days as int, 1));
        return None;
    }
    let mut d = from.add_days(1);
    let mut step: u32 = 0;
    while step < 20
        invariant
            step <= 20,
            d.days == from.days + 1 + step,
            d.days <= MAX_DAYS,
            closed_run(from.days as int, step + 1),
        decreases 20 - step,
    {
        if !is_ashare_closed(d) {
            proof {
                let k = step + 1;
                assert(!is_closed_spec(from.days + k));
                assert forall|j: int| 1 <= j <= 21 && #[trigger] closed_run(from.days as int, j) implies from.days
                    + j <= MAX_DAYS by {
                    if j > k {
                        assert(!is_closed_spec(from.days + k));
                    }
                }
                assert forall|kk: int| from.days < kk < d.days implies is_closed_spec(kk) by {
                    assert(is_closed_spec(from.days + (kk - from.days)));
                }
            }
            return Some(d);
        }
        proof {
            assert(is_closed_spec(from.days + (step + 1)));
            assert(closed_run(from.days as int, step + 2));
        }
        if d.days >= MAX_DAYS {
            return None;
        }
        d = d.add_days(1);
        step += 1;
    }
    proof {
        assert forall|kk: int| from.days < kk < d.days implies is_closed_spec(kk) by {
            assert(is_closed_spec(from.days + (kk - from.days)));
        }
    }
    Some(d)
}

/// The next trading day after `from`: the first day among the following 20
/// on which the exchange is open; if all 20 are closed, the day after them.
pub fn next_trading_day(from: Date) -> (r: Date)
    requires
        next_trading_day_in_range(from.days as int),
    ensures
        from.days < r.days <= from.days + 21,
        r.days <= from.days + 20 ==> !is_closed_spec(r.days as int),
        forall|k: int| from.days < k < r.days ==> is_closed_spec(k),
{
    match try_next_trading_day(from) {
        Some(d) => d,
        None => from,
    }
}

/// Format of an ISO date, `2025-01-31`.
pub open spec fn fmt_dash() -> Seq<u8> {
    "%Y-%m-%d".spec_bytes()
}

/// Format of a slashed date, `2025/01/31`.
pub open spec fn fmt_slash() -> Seq<u8> {
    "%Y/%m/%d".spec_bytes()
}

/// Format of a compact date, `20250131`.
pub open spec fn fmt_compact() -> Seq<u8> {
    "%Y%m%d".spec_bytes()
}

/// Date text read loosely: the trimmed text's first ten bytes as `Y-m-d` or
/// `Y/m/d`; otherwise, when the trimmed text has at least eight bytes, its
/// first eight ASCII digits as `Ymd`.
pub open spec fn flexible_date_spec(s: Seq<char>) -> Option<int> {
    let t = trim(s);
    let b = encode_utf8(t);
    let head = b.subrange(0, 10);
    let digits = ascii_digits(t);
    if b.len() >= 10 && parsed_date(head, fmt_dash()) is Some {
        parsed_date(head, fmt_dash())
    } else if b.len() >= 10 && parsed_date(head, fmt_slash()) is Some {
        parsed_date(head, fmt_slash())
    } else if b.len() >= 8 && digits.len() >= 8 {
        parsed_date(encode_utf8(digits.take(8)), fmt_compact())
    } else {
        None
    }
}

/// The input on which slicing the trimmed text at byte 10 is defined.
pub open spec fn flexible_date_input_ok(s: Seq<char>) -> bool {
    let b = encode_utf8(trim(s));
    b.len() >= 10 ==> is_char_boundary(b, 10)
}

/// Whether a date text can be read: its trimmed form, cut at byte ten,
/// does not split a character.
pub fn date_text_ok(s: &str) -> (r: bool)
    ensures
        r == flexible_date_input_ok(s@),
{
    let t = trim_str(s);
    let ts = t.as_str();
    assert(ts.spec_bytes() == encode_utf8(trim(s@)));
    ts.as_bytes().len() < 10 || ts.is_char_boundary(10)
}

/// Reads a date written as `Y-m-d`, `Y/m/d` (possibly followed by a time) or
/// as eight digits somewhere in the text.
pub fn parse_flexible_date(s: &str) -> (r: Option<Date>)
    requires
        flexible_date_input_ok(s@),
    ensures
        opt_days(r) == flexible_date_spec(s@),
        r matches Some(d) ==> MIN_DAYS <= d.days <= MAX_DAYS,
{
    let t = trim_str(s);
    let ts = t.as_str();
    proof {
        reveal_strlit("%Y-%m-%d");
        reveal_strlit("%Y/%m/%d");
        reveal_strlit("%Y%m%d");
    }
    assert(ts@ == trim(s@));
    assert(ts.spec_bytes() == encode_utf8(trim(s@)));
    assert("%Y-%m-%d".spec_bytes() == fmt_dash());
    let nbytes = ts.as_bytes().len();
    if nbytes >= 10 {
        let (head, _rest) = ts.split_at(10);
        assert(head.spec_bytes() == encode_utf8(trim(s@)).subrange(0, 10));
        if let Some(n) = parse_days(head, "%Y-%m-%d") {
            return Some(Date { days: n });
        }
        if let Some(n) = parse_days(head, "%Y/%m/%d") {
            return Some(Date { days: n });
        }
    }
    if nbytes >= 8 {
        let tv = to_chars(ts);
        let digits = chars_ascii_digits(&tv);
        if digits.len() >= 8 {
            let eight = string_of_range(&digits, 0, 8);
            assert(eight@ == ascii_digits(trim(s@)).take(8));
            return match parse_days(eight.as_str(), "%Y%m%d") {
                Some(n) => Some(Date { days: n }),
                None => None,
            };
        }
    }
    None
}

/// Trade-date text: eight ASCII digits read as `Ymd`, otherwise the first ten
/// bytes (or the whole text, when shorter) read as `Y-m-d`.
pub open spec fn trade_date_spec(s: Seq<char>) -> Option<int> {
    let t = trim(s);
    let b = encode_utf8(t);
    if b.len() == 8 && (forall|i: int| 0 <= i < t.len() ==> is_ascii_digit(#[trigger] t[i])) {
        parsed_date(b, fmt_compact())
    } else if b.len() >= 10 {
        parsed_date(b.subrange(0, 10), fmt_dash())
    } else {
        parsed_date(b, fmt_dash())
    }
}

/// Reads an exchange trade date, `20250131` or `2025-01-31...`.
pub fn parse_trade_date(raw: &str) -> (r: Option<Date>)
    requires
        flexible_date_input_ok(raw@),
    ensures
        opt_days(r) == trade_date_spec(raw@),
        r matches Some(d) ==> MIN_DAYS <= d.days <= MAX_DAYS,
{
    let t = trim_str(raw);
    let ts = t.as_str();
    proof {
        reveal_strlit("%Y-%m-%d");
        reveal_strlit("%Y%m%d");
    }
    let nbytes = ts.as_bytes().len();
    if nbytes == 8 {
        let tv = to_chars(ts);
        let mut all_digits = true;
        let mut i: usize = 0;
        while i < tv.len()
            invariant
                i <= tv.len(),
                tv@ == trim(raw@),
                all_digits == (forall|k: int| 0 <= k < i ==> is_ascii_digit(#[trigger] tv@[k])),
            decreases tv.len() - i,
        {
            if !is_ascii_digit_char(tv[i]) {
                all_digits = false;
            }
            i += 1;
        }
        if all_digits {
            return match parse_days(ts, "%Y%m%d") {
                Some(n) => Some(Date { days: n }),
                None => None,
            };
        }
    }
    let parsed = if nbytes >= 10 {
        let (head, _rest) = ts.split_at(10);
        parse_days(head, "%Y-%m-%d")
    } else {
        parse_days(ts, "%Y-%m-%d")
    };
    match parsed {
        Some(n) => Some(Date { days: n }),
        None => None,
    }
}

/// The UTC calendar date of a Unix timestamp in milliseconds.
pub fn ms_to_date(ms: i64) -> (r: Option<Date>)
    ensures
        opt_days(r) == utc_date_of_millis(ms as int),
        r matches Some(d) ==> MIN_DAYS <= d.days <= MAX_DAYS,
{
    match days_of_unix_millis(ms) {
        Some(n) => Some(Date { days: n }),
        None => None,
    }
}

} // verus!
