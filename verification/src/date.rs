//! Proleptic Gregorian calendar dates as plain year/month/day values:
//! weekday computation, the Monday-to-Friday week window used to scope a
//! single timetable query, and the `YYYYMMDD` wire format.
//!
//! Day numbers count days since January 1st of year 1, which is a Monday in
//! the proleptic Gregorian calendar.

use crate::numeric::{all_digits, digit_char, digit_of, digit_str, digit_value, digits_value};
use vstd::arithmetic::div_mod::{
    lemma_div_is_ordered, lemma_div_pos_is_pos, lemma_fundamental_div_mod,
    lemma_fundamental_div_mod_converse, lemma_mod_multiples_basic, lemma_mod_pos_bound,
};
use vstd::prelude::*;
use vstd::string::{StrSliceExecFns, StringExecFns};

verus! {

/// A day of the week, Monday first, as the upstream timetable lays weeks
/// out.
#[derive(Clone, Copy, PartialEq, Eq, Structural, Debug)]
pub enum Weekday {
    Mon,
    Tue,
    Wed,
    Thu,
    Fri,
    Sat,
    Sun,
}

impl Weekday {
    /// Days since the Monday of the same week.
    pub open spec fn offset(self) -> int {
        match self {
            Weekday::Mon => 0,
            Weekday::Tue => 1,
            Weekday::Wed => 2,
            Weekday::Thu => 3,
            Weekday::Fri => 4,
            Weekday::Sat => 5,
            Weekday::Sun => 6,
        }
    }

    /// The weekday `i` days after a Monday, for `0 <= i <= 6`.
    pub open spec fn from_offset(i: int) -> Weekday {
        if i == 0 {
            Weekday::Mon
        } else if i == 1 {
            Weekday::Tue
        } else if i == 2 {
            Weekday::Wed
        } else if i == 3 {
            Weekday::Thu
        } else if i == 4 {
            Weekday::Fri
        } else if i == 5 {
            Weekday::Sat
        } else {
            Weekday::Sun
        }
    }

    /// The short English name of the day ("Mon" through "Sun").
    pub open spec fn name_seq(self) -> Seq<char> {
        match self {
            Weekday::Mon => "Mon"@,
            Weekday::Tue => "Tue"@,
            Weekday::Wed => "Wed"@,
            Weekday::Thu => "Thu"@,
            Weekday::Fri => "Fri"@,
            Weekday::Sat => "Sat"@,
            Weekday::Sun => "Sun"@,
        }
    }

    pub fn name(self) -> (r: String)
        ensures
            r@ == self.name_seq(),
    {
        match self {
            Weekday::Mon => String::from_str("Mon"),
            Weekday::Tue => String::from_str("Tue"),
            Weekday::Wed => String::from_str("Wed"),
            Weekday::Thu => String::from_str("Thu"),
            Weekday::Fri => String::from_str("Fri"),
            Weekday::Sat => String::from_str("Sat"),
            Weekday::Sun => String::from_str("Sun"),
        }
    }
}

pub open spec fn is_leap_year(y: int) -> bool {
    y % 4 == 0 && (y % 100 != 0 || y % 400 == 0)
}

/// The number of days of month `m` (1-based) in year `y`.
pub open spec fn days_in_month(y: int, m: int) -> int {
    if m == 2 {
        if is_leap_year(y) {
            29
        } else {
            28
        }
    } else if m == 4 || m == 6 || m == 9 || m == 11 {
        30
    } else {
        31
    }
}

/// The number of days of year `y` that lie before month `m` (1-based; `m`
/// may be 13 to cover the whole year).
pub open spec fn days_before_month(y: int, m: int) -> int
    decreases m,
{
    if m <= 1 {
        0
    } else {
        days_before_month(y, m - 1) + days_in_month(y, m - 1)
    }
}

/// The number of days between January 1st of year 1 and January 1st of
/// year `y`.
pub open spec fn days_before_year(y: int) -> int {
    365 * (y - 1) + (y - 1) / 4 - (y - 1) / 100 + (y - 1) / 400
}

/// A calendar date. `valid` restricts it to the range the `YYYYMMDD` wire
/// format can carry.
#[derive(Clone, Copy, PartialEq, Eq, Structural, Debug)]
pub struct Date {
    pub year: u32,
    pub month: u32,
    pub day: u32,
}

impl Date {
    pub open spec fn valid(self) -> bool {
        &&& 1 <= self.year <= 9999
        &&& 1 <= self.month <= 12
        &&& 1 <= self.day <= days_in_month(self.year as int, self.month as int)
    }

    /// Days since January 1st of year 1.
    pub open spec fn day_number_spec(self) -> int {
        days_before_year(self.year as int) + days_before_month(
            self.year as int,
            self.month as int,
        ) + self.day - 1
    }

    /// Days since the Monday of this date's week.
    pub open spec fn weekday_offset(self) -> int {
        self.day_number_spec() % 7
    }

    pub open spec fn weekday_spec(self) -> Weekday {
        Weekday::from_offset(self.weekday_offset())
    }

    /// The day number of the Monday of this date's week.
    pub open spec fn week_monday_number(self) -> int {
        self.day_number_spec() - self.weekday_offset()
    }

    /// Builds a date, checking it against the calendar.
    pub fn new(year: u32, month: u32, day: u32) -> (r: Option<Date>)
        ensures
            r is Some <==> (Date { year, month, day }).valid(),
            r matches Some(d) ==> d == (Date { year, month, day }),
    {
        if 1 <= year && year <= 9999 && 1 <= month && month <= 12 && 1 <= day && day
            <= month_length(year, month) {
            Some(Date { year, month, day })
        } else {
            None
        }
    }

    /// Days since January 1st of year 1.
    pub fn day_number(&self) -> (r: u32)
        requires
            self.valid(),
        ensures
            r == self.day_number_spec(),
    {
        let y1 = self.year - 1;
        proof {
            lemma_div_by_parts(y1 as int);
        }
        let mut n: u32 = 365 * y1 + y1 / 4 + y1 / 400 - y1 / 100;
        let mut m: u32 = 1;
        while m < self.month
            invariant
                1 <= m <= self.month,
                self.valid(),
                n == days_before_year(self.year as int) + days_before_month(
                    self.year as int,
                    m as int,
                ),
                n <= 3_660_000,
            decreases self.month - m,
        {
            proof {
                lemma_days_before_year_bound(self.year as int);
                lemma_days_before_month_bound(self.year as int, m as int + 1);
            }
            n = n + month_length(self.year, m);
            m = m + 1;
        }
        n + self.day - 1
    }

    /// The day after this one.
    pub fn next_day(&self) -> (r: Date)
        requires
            self.valid(),
            self.day_number_spec() < last_day_number(),
        ensures
            r.valid(),
            r.day_number_spec() == self.day_number_spec() + 1,
    {
        let ml = month_length(self.year, self.month);
        if self.day < ml {
            Date { day: self.day + 1, ..*self }
        } else if self.month < 12 {
            Date { month: self.month + 1, day: 1, ..*self }
        } else {
            proof {
                lemma_year_days(self.year as int);
                lemma_days_before_year_succ(self.year as int);
            }
            Date { year: self.year + 1, month: 1, day: 1 }
        }
    }

    /// The day before this one.
    pub fn prev_day(&self) -> (r: Date)
        requires
            self.valid(),
            self.day_number_spec() > 0,
        ensures
            r.valid(),
            r.day_number_spec() == self.day_number_spec() - 1,
    {
        if self.day > 1 {
            Date { day: self.day - 1, ..*self }
        } else if self.month > 1 {
            let ml = month_length(self.year, self.month - 1);
            Date { month: self.month - 1, day: ml, ..*self }
        } else {
            proof {
                lemma_year_days(self.year as int - 1);
                lemma_days_before_year_succ(self.year as int - 1);
            }
            Date { year: self.year - 1, month: 12, day: 31 }
        }
    }

    /// The day of the week of this date.
    pub fn weekday(&self) -> (r: Weekday)
        requires
            self.valid(),
        ensures
            r == self.weekday_spec(),
    {
        let n = self.day_number();
        let w = n % 7;
        match w {
            0 => Weekday::Mon,
            1 => Weekday::Tue,
            2 => Weekday::Wed,
            3 => Weekday::Thu,
            4 => Weekday::Fri,
            5 => Weekday::Sat,
            _ => {
                proof {
                    lemma_mod_pos_bound(n as int, 7);
                }
                Weekday::Sun
            },
        }
    }

    /// The Monday of this date's week.
    pub fn week_monday(&self) -> (r: Date)
        requires
            self.valid(),
        ensures
            r.valid(),
            r.day_number_spec() == self.week_monday_number(),
    {
        let n = self.day_number();
        let w = n % 7;
        proof {
            lemma_mod_pos_bound(n as int, 7);
            lemma_fundamental_div_mod(n as int, 7);
            lemma_div_pos_is_pos(n as int, 7);
        }
        let mut cur = *self;
        let mut k: u32 = 0;
        while k < w
            invariant
                k <= w,
                w == self.weekday_offset(),
                w <= n,
                n == self.day_number_spec(),
                cur.valid(),
                cur.day_number_spec() == self.day_number_spec() - k,
            decreases w - k,
        {
            cur = cur.prev_day();
            k = k + 1;
        }
        cur
    }

    /// The Monday-to-Friday window of this date's week, or `None` when the
    /// Friday would fall outside the representable date range.
    pub fn week_window(&self) -> (r: Option<(Date, Date)>)
        requires
            self.valid(),
        ensures
            r is Some <==> self.week_monday_number() + 4 <= last_day_number(),
            r matches Some(p) ==> {
                &&& p.0.valid()
                &&& p.1.valid()
                &&& p.0.day_number_spec() == self.week_monday_number()
                &&& p.1.day_number_spec() == self.week_monday_number() + 4
                &&& p.0.weekday_spec() == Weekday::Mon
                &&& p.1.weekday_spec() == Weekday::Fri
            },
    {
        let monday = self.week_monday();
        let mn = monday.day_number();
        let last = last_day_number_exec();
        if mn as u64 + 4 <= last as u64 {
            proof {
                lemma_week_numbers(*self);
            }
            let d1 = monday.next_day();
            let d2 = d1.next_day();
            let d3 = d2.next_day();
            let friday = d3.next_day();
            Some((monday, friday))
        } else {
            None
        }
    }
}

/// The number of days of month `m` (1-based) in year `y`.
pub fn month_length(y: u32, m: u32) -> (r: u32)
    requires
        1 <= m <= 12,
    ensures
        r == days_in_month(y as int, m as int),
{
    if m == 2 {
        if is_leap_year_exec(y) {
            29
        } else {
            28
        }
    } else if m == 4 || m == 6 || m == 9 || m == 11 {
        30
    } else {
        31
    }
}

pub fn is_leap_year_exec(y: u32) -> (r: bool)
    ensures
        r == is_leap_year(y as int),
{
    y % 4 == 0 && (y % 100 != 0 || y % 400 == 0)
}

/// The day number of December 31st of year 9999, the last representable
/// date.
pub open spec fn last_day_number() -> int {
    (Date { year: 9999, month: 12, day: 31 }).day_number_spec()
}

pub fn last_day_number_exec() -> (r: u32)
    ensures
        r == last_day_number(),
{
    let d = Date { year: 9999, month: 12, day: 31 };
    d.day_number()
}

/// Splitting the subtraction of `days_before_year` so the executable
/// unsigned computation can reorder it.
proof fn lemma_div_by_parts(y1: int)
    requires
        0 <= y1 <= 9998,
    ensures
        y1 / 100 <= 365 * y1 + y1 / 4 + y1 / 400,
        365 * y1 + y1 / 4 + y1 / 400 - y1 / 100 == days_before_year(y1 + 1),
        365 * y1 + y1 / 4 <= 3_651_769,
        y1 / 400 <= y1 / 100,
{
    lemma_div_is_ordered(y1, 9998, 4);
    lemma_fundamental_div_mod_converse(9998, 4, 2499, 2);
    lemma_div_pos_is_pos(y1, 100);
    lemma_div_pos_is_pos(y1, 4);
    lemma_div_is_ordered(y1, 9998, 100);
    lemma_fundamental_div_mod_converse(9998, 100, 99, 98);
    lemma_div_is_ordered_by_denominator_simple(y1);
}

/// `y1 / 400 <= y1 / 100` for the year range in use.
proof fn lemma_div_is_ordered_by_denominator_simple(y1: int)
    requires
        0 <= y1,
    ensures
        y1 / 400 <= y1 / 100,
        y1 / 100 <= y1,
{
    lemma_fundamental_div_mod(y1, 400);
    lemma_fundamental_div_mod(y1, 100);
    lemma_mod_pos_bound(y1, 400);
    lemma_mod_pos_bound(y1, 100);
    lemma_div_pos_is_pos(y1, 400);
    lemma_div_pos_is_pos(y1, 100);
    let q4 = y1 / 400;
    let q1 = y1 / 100;
    assert(400 * q4 <= y1);
    assert(100 * q1 + 100 > y1);
    assert(q4 <= q1) by {
        if q4 > q1 {
            assert(400 * q4 >= 400 * (q1 + 1)) by (nonlinear_arith)
                requires
                    q4 >= q1 + 1,
            ;
            assert(400 * (q1 + 1) >= 100 * q1 + 100) by (nonlinear_arith)
                requires
                    q1 >= 0,
            ;
        }
    }
    assert(q1 <= y1) by {
        assert(100 * q1 >= q1) by (nonlinear_arith)
            requires
                q1 >= 0,
        ;
    }
}

/// Bounds used for overflow-freedom of the day-number computation.
proof fn lemma_days_before_year_bound(y: int)
    requires
        1 <= y <= 9999,
    ensures
        0 <= days_before_year(y) <= 3_655_000,
{
    let y1 = y - 1;
    lemma_div_is_ordered(y1, 9998, 4);
    lemma_fundamental_div_mod_converse(9998, 4, 2499, 2);
    lemma_div_pos_is_pos(y1, 4);
    lemma_div_pos_is_pos(y1, 100);
    lemma_div_pos_is_pos(y1, 400);
    lemma_div_is_ordered_by_denominator_simple(y1);
}

proof fn lemma_days_before_month_bound(y: int, m: int)
    requires
        1 <= m <= 13,
    ensures
        0 <= days_before_month(y, m) <= 31 * (m - 1),
    decreases m,
{
    if m > 1 {
        lemma_days_before_month_bound(y, m - 1);
    }
}

/// A year has 365 days, or 366 in a leap year.
proof fn lemma_year_days(y: int)
    ensures
        days_before_month(y, 13) == 365 + if is_leap_year(y) {
            1int
        } else {
            0int
        },
{
    reveal_with_fuel(days_before_month, 13);
}

/// How the quotient by `m` changes when stepping from `y - 1` to `y`.
proof fn lemma_quotient_step(y: int, m: int)
    requires
        y >= 1,
        m > 0,
    ensures
        y / m - (y - 1) / m == if y % m == 0 {
            1int
        } else {
            0int
        },
{
    lemma_fundamental_div_mod(y, m);
    lemma_mod_pos_bound(y, m);
    let q = y / m;
    let r = y % m;
    if r == 0 {
        assert(y - 1 == (q - 1) * m + (m - 1)) by (nonlinear_arith)
            requires
                y == m * q + r,
                r == 0,
        ;
        lemma_fundamental_div_mod_converse(y - 1, m, q - 1, m - 1);
    } else {
        assert(y - 1 == q * m + (r - 1)) by (nonlinear_arith)
            requires
                y == m * q + r,
        ;
        lemma_fundamental_div_mod_converse(y - 1, m, q, r - 1);
    }
}

/// Divisibility by 400 implies divisibility by 100 and 4; by 100 implies
/// by 4.
proof fn lemma_divisibility_chain(y: int)
    requires
        y >= 1,
    ensures
        y % 400 == 0 ==> y % 100 == 0,
        y % 100 == 0 ==> y % 4 == 0,
{
    if y % 400 == 0 {
        lemma_fundamental_div_mod(y, 400);
        let k = y / 400;
        assert(y == 400 * k);
        assert(y == k * 4 * 100) by (nonlinear_arith)
            requires
                y == 400 * k,
        ;
        lemma_mod_multiples_basic(k * 4, 100);
    }
    if y % 100 == 0 {
        lemma_fundamental_div_mod(y, 100);
        let k = y / 100;
        assert(y == 100 * k);
        assert(y == k * 25 * 4) by (nonlinear_arith)
            requires
                y == 100 * k,
        ;
        lemma_mod_multiples_basic(k * 25, 4);
    }
}

/// Stepping `days_before_year` by one year adds the year's length.
proof fn lemma_days_before_year_succ(y: int)
    requires
        y >= 1,
    ensures
        days_before_year(y + 1) == days_before_year(y) + 365 + if is_leap_year(y) {
            1int
        } else {
            0int
        },
{
    lemma_quotient_step(y, 4);
    lemma_quotient_step(y, 100);
    lemma_quotient_step(y, 400);
    lemma_divisibility_chain(y);
}

/// `days_before_month` grows along the months.
proof fn lemma_days_before_month_monotone(y: int, m1: int, m2: int)
    requires
        1 <= m1 <= m2 <= 13,
    ensures
        days_before_month(y, m1) <= days_before_month(y, m2),
    decreases m2 - m1,
{
    if m1 < m2 {
        lemma_days_before_month_monotone(y, m1, m2 - 1);
    }
}

/// `days_before_year` grows along the years.
proof fn lemma_days_before_year_monotone(y1: int, y2: int)
    requires
        1 <= y1 <= y2,
    ensures
        days_before_year(y1) <= days_before_year(y2),
    decreases y2 - y1,
{
    if y1 < y2 {
        lemma_days_before_year_monotone(y1, y2 - 1);
        lemma_days_before_year_succ(y2 - 1);
    }
}

/// A valid date's day number stays within its year.
proof fn lemma_day_number_within_year(d: Date)
    requires
        d.valid(),
    ensures
        days_before_year(d.year as int) <= d.day_number_spec(),
        d.day_number_spec() < days_before_year(d.year as int + 1),
{
    lemma_days_before_month_bound(d.year as int, d.month as int);
    lemma_days_before_month_monotone(d.year as int, d.month as int + 1, 13);
    lemma_year_days(d.year as int);
    lemma_days_before_year_succ(d.year as int);
}

/// The day number identifies a valid date: two valid dates with the same
/// day number are the same date.
pub proof fn lemma_day_number_injective(a: Date, b: Date)
    requires
        a.valid(),
        b.valid(),
        a.day_number_spec() == b.day_number_spec(),
    ensures
        a == b,
{
    lemma_day_number_within_year(a);
    lemma_day_number_within_year(b);
    if a.year < b.year {
        lemma_days_before_year_monotone(a.year as int + 1, b.year as int);
    }
    if b.year < a.year {
        lemma_days_before_year_monotone(b.year as int + 1, a.year as int);
    }
    let y = a.year as int;
    lemma_days_before_month_bound(y, a.month as int);
    lemma_days_before_month_bound(y, b.month as int);
    if a.month < b.month {
        lemma_days_before_month_monotone(y, a.month as int + 1, b.month as int);
    }
    if b.month < a.month {
        lemma_days_before_month_monotone(y, b.month as int + 1, a.month as int);
    }
}

/// The Monday of a week is a Monday, the Friday four days on is a Friday,
/// and the reference date lies inside its own week.
pub proof fn lemma_week_numbers(d: Date)
    requires
        d.valid(),
    ensures
        d.week_monday_number() % 7 == 0,
        (d.week_monday_number() + 4) % 7 == 4,
        d.week_monday_number() <= d.day_number_spec() <= d.week_monday_number() + 6,
        d.week_monday_number() >= 0,
{
    let n = d.day_number_spec();
    lemma_days_before_year_bound(d.year as int);
    lemma_days_before_month_bound(d.year as int, d.month as int);
    lemma_fundamental_div_mod(n, 7);
    lemma_mod_pos_bound(n, 7);
    lemma_div_pos_is_pos(n, 7);
    let q = n / 7;
    assert(d.week_monday_number() == q * 7) by (nonlinear_arith)
        requires
            n == 7 * q + n % 7,
            d.week_monday_number() == n - n % 7,
    ;
    lemma_mod_multiples_basic(q, 7);
    lemma_fundamental_div_mod_converse(q * 7 + 4, 7, q, 4);
    assert(q * 7 >= 0) by (nonlinear_arith)
        requires
            q >= 0,
    ;
}

/// What a `YYYYMMDD` string denotes: eight digits making up a valid date.
pub open spec fn parsed_yyyymmdd(s: Seq<char>) -> Option<Date> {
    if s.len() == 8 && all_digits(s) {
        let d = Date {
            year: digits_value(s.take(4)) as u32,
            month: digits_value(s.subrange(4, 6)) as u32,
            day: digits_value(s.subrange(6, 8)) as u32,
        };
        if d.valid() {
            Some(d)
        } else {
            None
        }
    } else {
        None
    }
}

/// Reads a `YYYYMMDD` string, exactly as [`parsed_yyyymmdd`] describes.
pub fn parse_yyyymmdd(s: &str) -> (r: Option<Date>)
    ensures
        r == parsed_yyyymmdd(s@),
{
    if s.unicode_len() != 8 {
        return None;
    }
    let mut vals: Vec<u32> = Vec::new();
    let mut i: usize = 0;
    while i < 8
        invariant
            i <= 8,
            s@.len() == 8,
            vals@.len() == i,
            forall|j: int|
                0 <= j < i ==> vals@[j] == digit_value(s@[j]) && crate::numeric::is_digit(
                    #[trigger] s@[j],
                ),
        decreases 8 - i,
    {
        let c = s.get_char(i);
        match digit_of(c) {
            Some(d) => {
                vals.push(d as u32);
            },
            None => {
                assert(!all_digits(s@));
                return None;
            },
        }
        i = i + 1;
    }
    proof {
        assert(vals@[0] == digit_value(s@[0]) && digit_value(s@[0]) <= 9);
        assert(vals@[1] == digit_value(s@[1]) && digit_value(s@[1]) <= 9);
        assert(vals@[2] == digit_value(s@[2]) && digit_value(s@[2]) <= 9);
        assert(vals@[3] == digit_value(s@[3]) && digit_value(s@[3]) <= 9);
        assert(vals@[4] == digit_value(s@[4]) && digit_value(s@[4]) <= 9);
        assert(vals@[5] == digit_value(s@[5]) && digit_value(s@[5]) <= 9);
        assert(vals@[6] == digit_value(s@[6]) && digit_value(s@[6]) <= 9);
        assert(vals@[7] == digit_value(s@[7]) && digit_value(s@[7]) <= 9);
    }
    let y = ((vals[0] * 10 + vals[1]) * 10 + vals[2]) * 10 + vals[3];
    let m = vals[4] * 10 + vals[5];
    let d = vals[6] * 10 + vals[7];
    proof {
        lemma_four_digit_value(s@);
        assert(all_digits(s@));
    }
    Date::new(y, m, d)
}

/// Unfolds the digit values of an eight-digit string.
proof fn lemma_four_digit_value(s: Seq<char>)
    requires
        s.len() == 8,
    ensures
        digits_value(s.take(4)) == ((digit_value(s[0]) * 10 + digit_value(s[1])) * 10
            + digit_value(s[2])) * 10 + digit_value(s[3]),
        digits_value(s.subrange(4, 6)) == digit_value(s[4]) * 10 + digit_value(s[5]),
        digits_value(s.subrange(6, 8)) == digit_value(s[6]) * 10 + digit_value(s[7]),
{
    reveal_with_fuel(digits_value, 6);
    assert(s.take(4).drop_last() =~= s.take(3));
    assert(s.take(3).drop_last() =~= s.take(2));
    assert(s.take(2).drop_last() =~= s.take(1));
    assert(s.take(1).drop_last() =~= s.take(0));
    assert(s.take(0).len() == 0);
    assert(s.subrange(4, 6).drop_last() =~= s.subrange(4, 5));
    assert(s.subrange(4, 5).drop_last() =~= s.subrange(4, 4));
    assert(s.subrange(4, 4).len() == 0);
    assert(s.subrange(6, 8).drop_last() =~= s.subrange(6, 7));
    assert(s.subrange(6, 7).drop_last() =~= s.subrange(6, 6));
    assert(s.subrange(6, 6).len() == 0);
}

/// The `YYYYMMDD` rendering of a date, zero-padded in every part.
pub open spec fn yyyymmdd_seq(d: Date) -> Seq<char> {
    seq![
        digit_char(d.year as int / 1000),
        digit_char((d.year as int / 100) % 10),
        digit_char((d.year as int / 10) % 10),
        digit_char(d.year as int % 10),
        digit_char(d.month as int / 10),
        digit_char(d.month as int % 10),
        digit_char(d.day as int / 10),
        digit_char(d.day as int % 10),
    ]
}

/// A digit character carries its digit back.
proof fn lemma_digit_char_value(x: int)
    requires
        0 <= x <= 9,
    ensures
        digit_value(digit_char(x)) == x,
{
}

/// Splitting a number into decimal digits and reading them back yields the
/// number.
proof fn lemma_two_digit_value(n: int)
    requires
        0 <= n <= 99,
    ensures
        (n / 10) * 10 + n % 10 == n,
        0 <= n / 10 <= 9,
        0 <= n % 10 <= 9,
{
    lemma_fundamental_div_mod(n, 10);
    lemma_mod_pos_bound(n, 10);
    lemma_div_pos_is_pos(n, 10);
    lemma_div_is_ordered(n, 99, 10);
    lemma_fundamental_div_mod_converse(99, 10, 9, 9);
}

/// Formatting a valid date and parsing the result yields the same date.
#[verifier::rlimit(60)]
pub proof fn lemma_format_parse_round_trip(d: Date)
    requires
        d.valid(),
    ensures
        parsed_yyyymmdd(yyyymmdd_seq(d)) == Some(d),
{
    let s = yyyymmdd_seq(d);
    let y = d.year as int;
    let m = d.month as int;
    let dy = d.day as int;
    lemma_div_is_ordered(y, 9999, 1000);
    lemma_fundamental_div_mod_converse(9999, 1000, 9, 999);
    lemma_div_pos_is_pos(y, 1000);
    lemma_div_pos_is_pos(y, 100);
    lemma_div_pos_is_pos(y, 10);
    lemma_mod_pos_bound(y, 10);
    lemma_mod_pos_bound(y / 10, 10);
    lemma_mod_pos_bound(y / 100, 10);
    vstd::arithmetic::div_mod::lemma_div_denominator(y, 10, 10);
    vstd::arithmetic::div_mod::lemma_div_denominator(y, 100, 10);
    lemma_fundamental_div_mod(y, 10);
    lemma_fundamental_div_mod(y / 10, 10);
    lemma_fundamental_div_mod(y / 100, 10);
    lemma_two_digit_value(m);
    lemma_two_digit_value(dy);
    assert forall|i: int| 0 <= i < 8 implies crate::numeric::is_digit(#[trigger] s[i]) by {
        lemma_digit_char_value(digit_value(s[i]));
        assert(digit_value(s[i]) >= 0);
    }
    reveal_with_fuel(digits_value, 6);
    assert(s.take(4).drop_last() =~= s.take(3));
    assert(s.take(3).drop_last() =~= s.take(2));
    assert(s.take(2).drop_last() =~= s.take(1));
    assert(s.take(1).drop_last() =~= s.take(0));
    assert(s.take(0) =~= Seq::<char>::empty());
    assert(s.subrange(4, 6).drop_last() =~= s.subrange(4, 5));
    assert(s.subrange(4, 5).drop_last() =~= s.subrange(4, 4));
    assert(s.subrange(4, 4) =~= Seq::<char>::empty());
    assert(s.subrange(6, 8).drop_last() =~= s.subrange(6, 7));
    assert(s.subrange(6, 7).drop_last() =~= s.subrange(6, 6));
    assert(s.subrange(6, 6) =~= Seq::<char>::empty());
    assert(digits_value(s.take(4)) == y);
    assert(digits_value(s.subrange(4, 6)) == m);
    assert(digits_value(s.subrange(6, 8)) == dy);
}

/// Writes a date as `YYYYMMDD`, exactly as [`yyyymmdd_seq`] describes.
pub fn format_yyyymmdd(d: &Date) -> (r: String)
    requires
        d.valid(),
    ensures
        r@ =~= yyyymmdd_seq(*d),
{
    proof {
        lemma_div_is_ordered(d.year as int, 9999, 1000);
        lemma_fundamental_div_mod_converse(9999, 1000, 9, 999);
        lemma_mod_pos_bound(d.year as int / 100, 10);
        lemma_mod_pos_bound(d.year as int / 10, 10);
        lemma_mod_pos_bound(d.year as int, 10);
        lemma_div_is_ordered(d.month as int, 12, 10);
        lemma_fundamental_div_mod_converse(12, 10, 1, 2);
        lemma_mod_pos_bound(d.month as int, 10);
        lemma_div_is_ordered(d.day as int, 31, 10);
        lemma_fundamental_div_mod_converse(31, 10, 3, 1);
        lemma_mod_pos_bound(d.day as int, 10);
        lemma_div_pos_is_pos(d.year as int, 1000);
        lemma_div_pos_is_pos(d.year as int / 100, 1);
        lemma_div_pos_is_pos(d.year as int, 100);
        lemma_div_pos_is_pos(d.year as int, 10);
        lemma_div_pos_is_pos(d.month as int, 10);
        lemma_div_pos_is_pos(d.day as int, 10);
    }
    let mut s = String::new();
    s.append(digit_str(d.year / 1000));
    s.append(digit_str(d.year / 100 % 10));
    s.append(digit_str(d.year / 10 % 10));
    s.append(digit_str(d.year % 10));
    s.append(digit_str(d.month / 10));
    s.append(digit_str(d.month % 10));
    s.append(digit_str(d.day / 10));
    s.append(digit_str(d.day % 10));
    s
}

} // verus!
