//! Proleptic Gregorian calendar arithmetic on plain year/month/day values.
//!
//! Dates are modelled by their day number: the count of days since the
//! first of January of year 1 (which falls on a Monday). All arithmetic
//! (adding days, adding months with end-of-month clamping, weekday
//! computation) is specified against that model.

use vstd::prelude::*;
use vstd::arithmetic::div_mod::lemma_fundamental_div_mod_converse;

verus! {

/// Largest year the library computes with. Stored dates use four-digit
/// years; this bound only has to leave room for recurrence arithmetic.
pub const MAX_YEAR: i64 = 20_000_000_000;

/// Largest day number recurrence arithmetic may reach. It lies within
/// year `MAX_YEAR`, with room to spare for one more month hop.
pub const MAX_DAY_NUMBER: i64 = 3_650_000_000_000;

/// A calendar date, as plain values.
#[derive(Clone, Copy, Debug, PartialEq, Eq, Structural)]
pub struct Date {
    pub year: i64,
    pub month: i64,
    pub day: i64,
}

pub open spec fn is_leap_year(y: int) -> bool {
    y % 4 == 0 && (y % 100 != 0 || y % 400 == 0)
}

pub open spec fn days_in_month(y: int, m: int) -> int {
    if m == 2 {
        if is_leap_year(y) { 29 } else { 28 }
    } else if m == 4 || m == 6 || m == 9 || m == 11 {
        30
    } else {
        31
    }
}

/// Days of year `y` that precede the first of month `m`.
pub open spec fn days_before_month(y: int, m: int) -> int {
    let base: int = if m <= 1 { 0 }
        else if m == 2 { 31 }
        else if m == 3 { 59 }
        else if m == 4 { 90 }
        else if m == 5 { 120 }
        else if m == 6 { 151 }
        else if m == 7 { 181 }
        else if m == 8 { 212 }
        else if m == 9 { 243 }
        else if m == 10 { 273 }
        else if m == 11 { 304 }
        else { 334 };
    if m > 2 && is_leap_year(y) { base + 1 } else { base }
}

/// Number of leap years in `1..=y`.
pub open spec fn leap_years_upto(y: int) -> int {
    y / 4 - y / 100 + y / 400
}

pub open spec fn date_valid(d: Date) -> bool {
    &&& 1 <= d.year <= MAX_YEAR
    &&& 1 <= d.month <= 12
    &&& 1 <= d.day <= days_in_month(d.year as int, d.month as int)
}

/// Days since 0001-01-01; that date itself has day number 0.
pub open spec fn day_number(d: Date) -> int {
    365 * (d.year - 1) + leap_years_upto(d.year - 1)
        + days_before_month(d.year as int, d.month as int) + d.day - 1
}

/// Weekday as an index, 0 = Monday .. 6 = Sunday (0001-01-01 is a Monday).
pub open spec fn weekday_of(d: Date) -> int {
    day_number(d) % 7
}

pub open spec fn date_lt(a: Date, b: Date) -> bool {
    day_number(a) < day_number(b)
}

proof fn lemma_div_step(x: int, k: int)
    requires
        x >= 1,
        k >= 1,
    ensures
        x % k == 0 ==> x / k == (x - 1) / k + 1,
        x % k != 0 ==> x / k == (x - 1) / k,
{
    let q = x / k;
    let r = x % k;
    assert(x == k * q + r) by {
        vstd::arithmetic::div_mod::lemma_fundamental_div_mod(x, k);
    }
    if r == 0 {
        assert(x - 1 == (q - 1) * k + (k - 1)) by (nonlinear_arith)
            requires
                x == k * q + r,
                r == 0,
        ;
        lemma_fundamental_div_mod_converse(x - 1, k, q - 1, k - 1);
    } else {
        assert(x - 1 == q * k + (r - 1)) by (nonlinear_arith)
            requires
                x == k * q + r,
        ;
        lemma_fundamental_div_mod_converse(x - 1, k, q, r - 1);
    }
}

/// A multiple of `a * b` is a multiple of `b`.
proof fn lemma_mod_factor(y: int, a: int, b: int)
    requires
        y >= 0,
        a >= 1,
        b >= 1,
        y % (a * b) == 0,
    ensures
        y % b == 0,
{
    assert(a * b >= 1) by (nonlinear_arith)
        requires
            a >= 1,
            b >= 1,
    ;
    let q = y / (a * b);
    assert(y == (a * b) * q) by {
        vstd::arithmetic::div_mod::lemma_fundamental_div_mod(y, a * b);
    }
    assert(y == (a * q) * b + 0) by (nonlinear_arith)
        requires
            y == (a * b) * q,
    ;
    lemma_fundamental_div_mod_converse(y, b, a * q, 0);
}

/// One more year brings one more leap day exactly when the year is leap.
#[verifier::rlimit(50)]
proof fn lemma_leap_step(y: int)
    requires
        y >= 1,
    ensures
        leap_years_upto(y) == leap_years_upto(y - 1) + if is_leap_year(y) { 1int } else { 0int },
{
    lemma_div_step(y, 4);
    lemma_div_step(y, 100);
    lemma_div_step(y, 400);
    if y % 400 == 0 {
        lemma_mod_factor(y, 4, 100);
    }
    if y % 100 == 0 {
        lemma_mod_factor(y, 25, 4);
    }
}

pub proof fn lemma_leap_years_nonneg(t: int)
    requires
        t >= 0,
    ensures
        0 <= leap_years_upto(t) <= t,
{
    vstd::arithmetic::div_mod::lemma_div_is_ordered_by_denominator(t, 4, 100);
    vstd::arithmetic::div_mod::lemma_div_pos_is_pos(t, 400);
    vstd::arithmetic::div_mod::lemma_div_pos_is_pos(t, 100);
    assert(t / 4 <= t) by {
        vstd::arithmetic::div_mod::lemma_div_nonincreasing(t, 4);
    }
}

/// Day numbers grow by exactly one from the last day of a year
/// to the first day of the next.
proof fn lemma_year_step(y: int)
    requires
        y >= 1,
    ensures
        365 * y + leap_years_upto(y)
            == 365 * (y - 1) + leap_years_upto(y - 1) + days_before_month(y, 12) + 31,
{
    lemma_leap_step(y);
}

/// Within one year, each month starts one day after the previous month ends.
proof fn lemma_month_step(y: int, m: int)
    requires
        1 <= m <= 11,
    ensures
        days_before_month(y, m + 1) == days_before_month(y, m) + days_in_month(y, m),
{
}

pub fn leap_year(y: i64) -> (b: bool)
    requires
        y >= 1,
    ensures
        b == is_leap_year(y as int),
{
    y % 4 == 0 && (y % 100 != 0 || y % 400 == 0)
}

pub fn month_days(y: i64, m: i64) -> (r: i64)
    requires
        y >= 1,
        1 <= m <= 12,
    ensures
        r == days_in_month(y as int, m as int),
{
    if m == 2 {
        if leap_year(y) { 29 } else { 28 }
    } else if m == 4 || m == 6 || m == 9 || m == 11 {
        30
    } else {
        31
    }
}

pub fn check_date(d: &Date) -> (b: bool)
    ensures
        b == date_valid(*d),
{
    1 <= d.year && d.year <= MAX_YEAR && 1 <= d.month && d.month <= 12 && 1 <= d.day
        && d.day <= month_days(if d.year >= 1 { d.year } else { 1 },
            if 1 <= d.month && d.month <= 12 { d.month } else { 1 })
}

fn before_month(y: i64, m: i64) -> (r: i64)
    requires
        y >= 1,
        1 <= m <= 12,
    ensures
        r == days_before_month(y as int, m as int),
{
    let base: i64 = if m <= 1 { 0 }
        else if m == 2 { 31 }
        else if m == 3 { 59 }
        else if m == 4 { 90 }
        else if m == 5 { 120 }
        else if m == 6 { 151 }
        else if m == 7 { 181 }
        else if m == 8 { 212 }
        else if m == 9 { 243 }
        else if m == 10 { 273 }
        else if m == 11 { 304 }
        else { 334 };
    if m > 2 && leap_year(y) { base + 1 } else { base }
}

pub fn day_number_of(d: &Date) -> (n: i64)
    requires
        date_valid(*d),
    ensures
        n == day_number(*d),
        0 <= n,
{
    let y1 = d.year - 1;
    365 * y1 + y1 / 4 - y1 / 100 + y1 / 400 + before_month(d.year, d.month) + d.day - 1
}

/// Weekday index of a date: 0 = Monday .. 6 = Sunday.
pub fn weekday_index(d: &Date) -> (w: i64)
    requires
        date_valid(*d),
    ensures
        w == weekday_of(*d),
        0 <= w <= 6,
{
    day_number_of(d) % 7
}

pub fn date_before(a: &Date, b: &Date) -> (r: bool)
    requires
        date_valid(*a),
        date_valid(*b),
    ensures
        r == date_lt(*a, *b),
{
    day_number_of(a) < day_number_of(b)
}

/// The date `n` days after `d`.
#[verifier::rlimit(100)]
pub fn add_days(d: &Date, n: i64) -> (r: Date)
    requires
        date_valid(*d),
        0 <= n,
        day_number(*d) + n <= MAX_DAY_NUMBER,
    ensures
        date_valid(r),
        day_number(r) == day_number(*d) + n,
{
    let mut y = d.year;
    let mut m = d.month;
    let mut day = d.day;
    let mut left = n;
    loop
        invariant
            date_valid(Date { year: y, month: m, day: day }),
            0 <= left,
            day_number(Date { year: y, month: m, day: day }) + left == day_number(*d) + n,
            day_number(*d) + n <= MAX_DAY_NUMBER,
        decreases left,
    {
        let dim = month_days(y, m);
        let room = dim - day;
        if left <= room {
            let res = Date { year: y, month: m, day: day + left };
            return res;
        }
        left = left - room - 1;
        let ghost prev = Date { year: y as int as i64, month: m as int as i64, day: dim as int as i64 };
        if m == 12 {
            proof {
                lemma_year_step(y as int + 1);
                // year bound: the day number stays below MAX_DAY_NUMBER,
                // and each year contributes at least 365 days
                lemma_leap_years_nonneg(y as int - 1);
                assert(365 * (y as int - 1) <= day_number(prev));
                assert(day_number(Date { year: (y + 1) as i64, month: 1i64, day: 1i64 })
                    == day_number(prev) + 1);
            }
            y = y + 1;
            m = 1;
        } else {
            proof {
                lemma_month_step(y as int, m as int);
                assert(day_number(Date { year: y as i64, month: (m + 1) as i64, day: 1i64 })
                    == day_number(prev) + 1);
            }
            m = m + 1;
        }
        day = 1;
    }
}

/// The date `k` months after `d`, keeping the day of the month and
/// clamping down to the last day when the target month is shorter.
pub open spec fn add_months_spec(d: Date, k: int) -> Date {
    let t: int = d.month - 1 + k;
    let y: int = d.year + t / 12;
    let m: int = t % 12 + 1;
    let day: int = if d.day <= days_in_month(y, m) { d.day as int } else { days_in_month(y, m) };
    Date { year: y as i64, month: m as i64, day: day as i64 }
}

pub fn add_months(d: &Date, k: i64) -> (r: Date)
    requires
        date_valid(*d),
        0 <= k,
        d.year + (d.month - 1 + k) / 12 < MAX_YEAR,
    ensures
        r == add_months_spec(*d, k as int),
        date_valid(r),
{
    let t = d.month - 1 + k;
    let y = d.year + t / 12;
    let m = t % 12 + 1;
    proof {
        vstd::arithmetic::div_mod::lemma_fundamental_div_mod(t as int, 12);
    }
    let dim = month_days(y, m);
    let day = if d.day <= dim { d.day } else { dim };
    Date { year: y, month: m, day: day }
}

proof fn lemma_leap_monotone(x: int, y: int)
    requires
        0 <= x <= y,
    ensures
        leap_years_upto(x) <= leap_years_upto(y),
    decreases y - x,
{
    if x < y {
        lemma_leap_monotone(x, y - 1);
        lemma_leap_step(y);
    }
}

/// Every valid date's day number sits at least a full year count in.
pub proof fn lemma_day_number_year_bound(d: Date)
    requires
        date_valid(d),
    ensures
        365 * (d.year - 1) <= day_number(d) <= 365 * d.year + leap_years_upto(d.year as int),
{
    lemma_leap_years_nonneg(d.year as int - 1);
    lemma_leap_step(d.year as int);
}

/// Day numbers grow strictly with the calendar order of dates.
pub proof fn lemma_day_number_increasing(a: Date, b: Date)
    requires
        date_valid(a),
        date_valid(b),
        a.year < b.year || (a.year == b.year && a.month < b.month) || (a.year == b.year
            && a.month == b.month && a.day < b.day),
    ensures
        day_number(a) < day_number(b),
{
    if a.year == b.year {
        if a.month < b.month {
            assert(days_before_month(a.year as int, a.month as int)
                + days_in_month(a.year as int, a.month as int)
                <= days_before_month(b.year as int, b.month as int));
        }
    } else {
        // a is at most the last day of its year, b at least the first
        // day of its own
        lemma_leap_monotone(a.year as int, b.year as int - 1);
        lemma_leap_step(a.year as int);
        assert(day_number(a) <= 365 * a.year + leap_years_upto(a.year as int) - 1);
        assert(day_number(b) >= 365 * (b.year - 1) + leap_years_upto(b.year as int - 1));
    }
}

/// Day numbers identify dates: two valid dates with the same day
/// number are the same date, so a contract that pins a result's day
/// number pins the date.
pub proof fn lemma_day_number_injective(a: Date, b: Date)
    requires
        date_valid(a),
        date_valid(b),
        day_number(a) == day_number(b),
    ensures
        a == b,
{
    if a.year < b.year || (a.year == b.year && a.month < b.month) || (a.year == b.year
        && a.month == b.month && a.day < b.day) {
        lemma_day_number_increasing(a, b);
    } else if b.year < a.year || (b.year == a.year && b.month < a.month) || (b.year == a.year
        && b.month == a.month && b.day < a.day) {
        lemma_day_number_increasing(b, a);
    }
}

pub open spec fn is_digit(c: char) -> bool {
    '0' <= c && c <= '9'
}

pub open spec fn digit_val(c: char) -> int {
    c as int - 48
}

/// The digit character for a value in `0..=9`.
pub open spec fn digit_char(v: int) -> char {
    ((48 + v) as u8) as char
}

/// Shape check for `YYYY-MM-DD` text, including calendar validity.
pub open spec fn date_text_valid(s: Seq<char>) -> bool {
    &&& s.len() == 10
    &&& is_digit(s[0]) && is_digit(s[1]) && is_digit(s[2]) && is_digit(s[3])
    &&& s[4] == '-'
    &&& is_digit(s[5]) && is_digit(s[6])
    &&& s[7] == '-'
    &&& is_digit(s[8]) && is_digit(s[9])
    &&& date_valid(date_of_text(s))
}

/// The date spelled by `YYYY-MM-DD` text.
pub open spec fn date_of_text(s: Seq<char>) -> Date {
    Date {
        year: (1000 * digit_val(s[0]) + 100 * digit_val(s[1]) + 10 * digit_val(s[2])
            + digit_val(s[3])) as i64,
        month: (10 * digit_val(s[5]) + digit_val(s[6])) as i64,
        day: (10 * digit_val(s[8]) + digit_val(s[9])) as i64,
    }
}

/// The `YYYY-MM-DD` spelling of a date with a four-digit year.
pub open spec fn date_text(d: Date) -> Seq<char> {
    seq![
        digit_char(d.year as int / 1000),
        digit_char((d.year as int / 100) % 10),
        digit_char((d.year as int / 10) % 10),
        digit_char(d.year as int % 10),
        '-',
        digit_char(d.month as int / 10),
        digit_char(d.month as int % 10),
        '-',
        digit_char(d.day as int / 10),
        digit_char(d.day as int % 10),
    ]
}

fn digit_of(c: char) -> (r: Option<i64>)
    ensures
        r is Some <==> is_digit(c),
        r is Some ==> r->Some_0 == digit_val(c) && 0 <= r->Some_0 <= 9,
{
    if '0' <= c && c <= '9' {
        Some(c as i64 - 48)
    } else {
        None
    }
}

/// Parses strict `YYYY-MM-DD` text into a calendar date.
pub fn parse_date(value: &str) -> (r: Result<Date, String>)
    ensures
        r is Ok <==> date_text_valid(value@),
        r is Ok ==> r->Ok_0 == date_of_text(value@),
{
    let err = || -> (e: String) { String::from_str("invalid date, expected YYYY-MM-DD") };
    if value.unicode_len() != 10 {
        return Err(err());
    }
    if value.get_char(4) != '-' || value.get_char(7) != '-' {
        return Err(err());
    }
    let d0 = digit_of(value.get_char(0));
    let d1 = digit_of(value.get_char(1));
    let d2 = digit_of(value.get_char(2));
    let d3 = digit_of(value.get_char(3));
    let d5 = digit_of(value.get_char(5));
    let d6 = digit_of(value.get_char(6));
    let d8 = digit_of(value.get_char(8));
    let d9 = digit_of(value.get_char(9));
    match (d0, d1, d2, d3, d5, d6, d8, d9) {
        (Some(a), Some(b), Some(c), Some(d), Some(e), Some(f), Some(g), Some(h)) => {
            let date = Date {
                year: 1000 * a + 100 * b + 10 * c + d,
                month: 10 * e + f,
                day: 10 * g + h,
            };
            if check_date(&date) {
                Ok(date)
            } else {
                Err(err())
            }
        },
        _ => Err(err()),
    }
}

fn digit_text(v: i64) -> (s: &'static str)
    requires
        0 <= v <= 9,
    ensures
        s@ =~= seq![digit_char(v as int)],
{
    proof {
        reveal_strlit("0");
        reveal_strlit("1");
        reveal_strlit("2");
        reveal_strlit("3");
        reveal_strlit("4");
        reveal_strlit("5");
        reveal_strlit("6");
        reveal_strlit("7");
        reveal_strlit("8");
        reveal_strlit("9");
    }
    match v {
        0 => "0",
        1 => "1",
        2 => "2",
        3 => "3",
        4 => "4",
        5 => "5",
        6 => "6",
        7 => "7",
        8 => "8",
        _ => "9",
    }
}

/// Renders a date as `YYYY-MM-DD` text.
pub fn format_date(d: &Date) -> (r: String)
    requires
        date_valid(*d),
        d.year <= 9999,
    ensures
        r@ == date_text(*d),
{
    proof {
        reveal_strlit("-");
    }
    let mut out = String::new();
    out.append(digit_text(d.year / 1000));
    out.append(digit_text((d.year / 100) % 10));
    out.append(digit_text((d.year / 10) % 10));
    out.append(digit_text(d.year % 10));
    out.append("-");
    out.append(digit_text(d.month / 10));
    out.append(digit_text(d.month % 10));
    out.append("-");
    out.append(digit_text(d.day / 10));
    out.append(digit_text(d.day % 10));
    proof {
        assert(out@ =~= date_text(*d));
    }
    out
}

/// Formatting a date and reading the text back is the identity.
pub proof fn lemma_date_text_round_trip(d: Date)
    requires
        date_valid(d),
        d.year <= 9999,
    ensures
        date_text_valid(date_text(d)),
        date_of_text(date_text(d)) == d,
{
    let s = date_text(d);
    let y = d.year as int;
    vstd::arithmetic::div_mod::lemma_fundamental_div_mod(y, 10);
    vstd::arithmetic::div_mod::lemma_fundamental_div_mod(y / 10, 10);
    vstd::arithmetic::div_mod::lemma_fundamental_div_mod(y / 10 / 10, 10);
    vstd::arithmetic::div_mod::lemma_div_denominator(y, 10, 10);
    vstd::arithmetic::div_mod::lemma_div_denominator(y, 100, 10);
    vstd::arithmetic::div_mod::lemma_fundamental_div_mod(d.month as int, 10);
    vstd::arithmetic::div_mod::lemma_fundamental_div_mod(d.day as int, 10);
    assert(date_of_text(s).year == d.year);
    assert(date_of_text(s) == d);
}

/// Shape check for `HH:MM` text on the 24-hour clock.
pub open spec fn time_text_valid(s: Seq<char>) -> bool {
    &&& s.len() == 5
    &&& is_digit(s[0]) && is_digit(s[1])
    &&& s[2] == ':'
    &&& is_digit(s[3]) && is_digit(s[4])
    &&& 10 * digit_val(s[0]) + digit_val(s[1]) <= 23
    &&& 10 * digit_val(s[3]) + digit_val(s[4]) <= 59
}

/// The minute of the day spelled by `HH:MM` text.
pub open spec fn minute_of_text(s: Seq<char>) -> int {
    60 * (10 * digit_val(s[0]) + digit_val(s[1])) + 10 * digit_val(s[3]) + digit_val(s[4])
}

/// Parses strict `HH:MM` text into a minute of the day.
pub fn parse_time(value: &str) -> (r: Result<i64, String>)
    ensures
        r is Ok <==> time_text_valid(value@),
        r is Ok ==> r->Ok_0 == minute_of_text(value@) && 0 <= r->Ok_0 < 1440,
{
    let err = || -> (e: String) { String::from_str("invalid time, expected HH:MM") };
    if value.unicode_len() != 5 {
        return Err(err());
    }
    if value.get_char(2) != ':' {
        return Err(err());
    }
    let d0 = digit_of(value.get_char(0));
    let d1 = digit_of(value.get_char(1));
    let d3 = digit_of(value.get_char(3));
    let d4 = digit_of(value.get_char(4));
    match (d0, d1, d3, d4) {
        (Some(a), Some(b), Some(c), Some(d)) => {
            let hour = 10 * a + b;
            let minute = 10 * c + d;
            if hour <= 23 && minute <= 59 {
                Ok(60 * hour + minute)
            } else {
                Err(err())
            }
        },
        _ => Err(err()),
    }
}

} // verus!
