//! Calendar dates of the proleptic Gregorian calendar, years 1 to 9999, and
//! the run of consecutive dates that a scrape covers.

use crate::error::{ParseError, ParseErrorView};
use crate::text::{chars_of, string_of};
use vstd::prelude::*;
use vstd::string::StringExecFns;

verus! {

/// A date as its three numbers.
pub struct DateView {
    pub year: int,
    pub month: int,
    pub day: int,
}

pub open spec fn is_leap(y: int) -> bool {
    y % 4 == 0 && (y % 100 != 0 || y % 400 == 0)
}

pub open spec fn leap_day(y: int) -> int {
    if is_leap(y) {
        1
    } else {
        0
    }
}

pub open spec fn days_in_month(y: int, m: int) -> int {
    if m == 2 {
        28 + leap_day(y)
    } else if m == 4 || m == 6 || m == 9 || m == 11 {
        30
    } else {
        31
    }
}

pub open spec fn valid_date(d: DateView) -> bool {
    &&& 1 <= d.year <= 9999
    &&& 1 <= d.month <= 12
    &&& 1 <= d.day <= days_in_month(d.year, d.month)
}

/// The last date of the calendar: 9999-12-31.
pub open spec fn last_date() -> DateView {
    DateView { year: 9999, month: 12, day: 31 }
}

/// The day after `d`.
pub open spec fn successor(d: DateView) -> DateView {
    if d.day < days_in_month(d.year, d.month) {
        DateView { year: d.year, month: d.month, day: d.day + 1 }
    } else if d.month < 12 {
        DateView { year: d.year, month: d.month + 1, day: 1 }
    } else {
        DateView { year: d.year + 1, month: 1, day: 1 }
    }
}

/// Calendar order: `a` comes before `b`.
pub open spec fn earlier(a: DateView, b: DateView) -> bool {
    a.year < b.year || (a.year == b.year && (a.month < b.month || (a.month == b.month && a.day
        < b.day)))
}

/// The days in the years before year `y`.
pub open spec fn days_before_year(y: int) -> int {
    365 * (y - 1) + (y - 1) / 4 - (y - 1) / 100 + (y - 1) / 400
}

/// The days of year `y` in the months before month `m`.
pub open spec fn days_before_month(y: int, m: int) -> int {
    if m <= 1 {
        0
    } else if m == 2 {
        31
    } else {
        let base: int = if m == 3 {
            59
        } else if m == 4 {
            90
        } else if m == 5 {
            120
        } else if m == 6 {
            151
        } else if m == 7 {
            181
        } else if m == 8 {
            212
        } else if m == 9 {
            243
        } else if m == 10 {
            273
        } else if m == 11 {
            304
        } else if m == 12 {
            334
        } else {
            365
        };
        base + leap_day(y)
    }
}

/// The number of a date when the days are counted from 0001-01-01 as day 1.
pub open spec fn day_number(d: DateView) -> int {
    days_before_year(d.year) + days_before_month(d.year, d.month) + d.day
}

/// The number of 9999-12-31.
pub const LAST_DAY_NUMBER: u32 = 3652059;

/// The number of 1970-01-01.
pub const EPOCH_DAY_NUMBER: u32 = 719163;

/// The value of a digit's character; 10 for any other character.
#[verifier::opaque]
pub open spec fn digit_value(c: char) -> int {
    if c == '0' {
        0
    } else if c == '1' {
        1
    } else if c == '2' {
        2
    } else if c == '3' {
        3
    } else if c == '4' {
        4
    } else if c == '5' {
        5
    } else if c == '6' {
        6
    } else if c == '7' {
        7
    } else if c == '8' {
        8
    } else if c == '9' {
        9
    } else {
        10
    }
}

pub open spec fn is_digit(c: char) -> bool {
    digit_value(c) < 10
}

/// The character of a digit from 0 to 9.
#[verifier::opaque]
pub open spec fn digit(n: int) -> char {
    if n == 0 {
        '0'
    } else if n == 1 {
        '1'
    } else if n == 2 {
        '2'
    } else if n == 3 {
        '3'
    } else if n == 4 {
        '4'
    } else if n == 5 {
        '5'
    } else if n == 6 {
        '6'
    } else if n == 7 {
        '7'
    } else if n == 8 {
        '8'
    } else {
        '9'
    }
}

/// A date written as YYYY-MM-DD.
pub open spec fn date_text(d: DateView) -> Seq<char> {
    seq![
        digit(d.year / 1000),
        digit(d.year / 100 % 10),
        digit(d.year / 10 % 10),
        digit(d.year % 10),
        '-',
        digit(d.month / 10),
        digit(d.month % 10),
        '-',
        digit(d.day / 10),
        digit(d.day % 10),
    ]
}

/// Whether `t` has the shape DDDD-DD-DD, each D a digit.
pub open spec fn date_shaped(t: Seq<char>) -> bool {
    &&& t.len() == 10
    &&& is_digit(t[0]) && is_digit(t[1]) && is_digit(t[2]) && is_digit(t[3])
    &&& t[4] == '-'
    &&& is_digit(t[5]) && is_digit(t[6])
    &&& t[7] == '-'
    &&& is_digit(t[8]) && is_digit(t[9])
}

/// The three numbers that a text of that shape holds.
pub open spec fn date_numbers(t: Seq<char>) -> DateView {
    DateView {
        year: 1000 * digit_value(t[0]) + 100 * digit_value(t[1]) + 10 * digit_value(t[2])
            + digit_value(t[3]),
        month: 10 * digit_value(t[5]) + digit_value(t[6]),
        day: 10 * digit_value(t[8]) + digit_value(t[9]),
    }
}

/// The date that a text denotes: it must have the shape YYYY-MM-DD and name a
/// day of the calendar.
pub open spec fn parsed_date(t: Seq<char>) -> Option<DateView> {
    if date_shaped(t) && valid_date(date_numbers(t)) {
        Some(date_numbers(t))
    } else {
        None
    }
}

/// How a quotient by 4, 100 or 400 moves from one number to the next.
proof fn lemma_quotient_steps(x: int)
    requires
        0 <= x,
    ensures
        (x + 1) / 4 == x / 4 + if (x + 1) % 4 == 0 { 1int } else { 0int },
        (x + 1) / 100 == x / 100 + if (x + 1) % 100 == 0 { 1int } else { 0int },
        (x + 1) / 400 == x / 400 + if (x + 1) % 400 == 0 { 1int } else { 0int },
{
    assert((x + 1) / 4 == x / 4 + if (x + 1) % 4 == 0 { 1int } else { 0int });
    assert((x + 1) / 100 == x / 100 + if (x + 1) % 100 == 0 { 1int } else { 0int });
    assert((x + 1) / 400 == x / 400 + if (x + 1) % 400 == 0 { 1int } else { 0int });
}

/// A year has 365 days, and one more where it is a leap year.
pub proof fn lemma_year_length(y: int)
    requires
        1 <= y,
    ensures
        days_before_year(y + 1) == days_before_year(y) + 365 + leap_day(y),
{
    lemma_quotient_steps(y - 1);
    assert(y % 400 == 0 ==> y % 100 == 0);
    assert(y % 100 == 0 ==> y % 4 == 0);
}

/// Later years begin later.
pub proof fn lemma_years_ascend(y1: int, y2: int)
    requires
        1 <= y1 <= y2,
    ensures
        days_before_year(y1) <= days_before_year(y2),
    decreases y2 - y1,
{
    if y1 < y2 {
        lemma_year_length(y2 - 1);
        lemma_years_ascend(y1, y2 - 1);
    }
}

/// The day after a date of the calendar, other than its last, is a date of
/// the calendar, comes later, and has the next day number.
pub proof fn lemma_successor(d: DateView)
    requires
        valid_date(d),
        d != last_date(),
    ensures
        valid_date(successor(d)),
        earlier(d, successor(d)),
        day_number(successor(d)) == day_number(d) + 1,
{
    lemma_year_length(d.year);
}

/// Within the calendar the day numbers run from 1 to that of 9999-12-31, and
/// the day number orders dates as the calendar does.
pub proof fn lemma_day_number_order(a: DateView, b: DateView)
    requires
        valid_date(a),
        valid_date(b),
    ensures
        1 <= day_number(a) <= LAST_DAY_NUMBER,
        earlier(a, b) <==> day_number(a) < day_number(b),
        a == b <==> day_number(a) == day_number(b),
{
    lemma_year_length(a.year);
    lemma_year_length(b.year);
    lemma_years_ascend(1, a.year);
    lemma_years_ascend(a.year + 1, 10000);
    if a.year < b.year {
        lemma_years_ascend(a.year + 1, b.year);
    }
    if b.year < a.year {
        lemma_years_ascend(b.year + 1, a.year);
    }
    assert(days_before_month(a.year, a.month) + days_in_month(a.year, a.month)
        == days_before_month(a.year, a.month + 1));
    assert(days_before_month(b.year, b.month) + days_in_month(b.year, b.month)
        == days_before_month(b.year, b.month + 1));
    if a.year == b.year && a.month < b.month {
        assert(days_before_month(a.year, a.month + 1) <= days_before_month(b.year, b.month));
    }
    if a.year == b.year && b.month < a.month {
        assert(days_before_month(b.year, b.month + 1) <= days_before_month(a.year, a.month));
    }
}

/// A digit is read back from its character.
pub proof fn lemma_digit(n: int)
    requires
        0 <= n <= 9,
    ensures
        digit_value(digit(n)) == n,
{
    reveal(digit);
    reveal(digit_value);
}

/// A number below 10000 is the sum of its four digits, each times its power of ten.
proof fn lemma_four_digits(y: int)
    requires
        0 <= y <= 9999,
    ensures
        0 <= y / 1000 <= 9,
        0 <= y / 100 % 10 <= 9,
        0 <= y / 10 % 10 <= 9,
        0 <= y % 10 <= 9,
        1000 * (y / 1000) + 100 * (y / 100 % 10) + 10 * (y / 10 % 10) + y % 10 == y,
{
    let a = y / 10;
    let b = y / 100;
    assert(a / 10 == b);
    assert(b / 10 == y / 1000);
    assert(y == 10 * a + y % 10);
    assert(a == 10 * b + a % 10);
    assert(b == 10 * (b / 10) + b % 10);
}

/// A number below 100 is ten times its first digit and its second.
proof fn lemma_two_digits(m: int)
    requires
        0 <= m <= 99,
    ensures
        0 <= m / 10 <= 9,
        0 <= m % 10 <= 9,
        10 * (m / 10) + m % 10 == m,
{
}

/// The numbers that are read from the digits of three numbers.
proof fn lemma_numbers_of_digits(t: Seq<char>, y: int, m: int, d: int)
    requires
        0 <= y <= 9999,
        0 <= m <= 99,
        0 <= d <= 99,
        t.len() == 10,
        t[0] == digit(y / 1000),
        t[1] == digit(y / 100 % 10),
        t[2] == digit(y / 10 % 10),
        t[3] == digit(y % 10),
        t[4] == '-',
        t[5] == digit(m / 10),
        t[6] == digit(m % 10),
        t[7] == '-',
        t[8] == digit(d / 10),
        t[9] == digit(d % 10),
    ensures
        date_shaped(t),
        date_numbers(t) == (DateView { year: y, month: m, day: d }),
{
    lemma_four_digits(y);
    lemma_two_digits(m);
    lemma_two_digits(d);
    lemma_digit(y / 1000);
    lemma_digit(y / 100 % 10);
    lemma_digit(y / 10 % 10);
    lemma_digit(y % 10);
    lemma_digit(m / 10);
    lemma_digit(m % 10);
    lemma_digit(d / 10);
    lemma_digit(d % 10);
}

/// A date of the calendar is read back from its text.
pub proof fn lemma_text_round_trip(d: DateView)
    requires
        valid_date(d),
    ensures
        date_text(d).len() == 10,
        parsed_date(date_text(d)) == Some(d),
{
    lemma_numbers_of_digits(date_text(d), d.year, d.month, d.day);
}

/// Whether the date at `i + 1` in `r` is the day after the date at `i`.
pub open spec fn day_after(r: Seq<Date>, i: int) -> bool {
    r[i + 1]@ == successor(r[i]@)
}

/// No date of the calendar with a smaller day number is its last date.
pub proof fn lemma_not_last(d: DateView)
    requires
        day_number(d) < LAST_DAY_NUMBER,
    ensures
        d != last_date(),
{
    assert(day_number(last_date()) == LAST_DAY_NUMBER);
}

/// A calendar date.
#[derive(Clone, Copy, PartialEq, Eq, Structural, Debug)]
pub struct Date {
    year: u16,
    month: u8,
    day: u8,
}

impl View for Date {
    type V = DateView;

    closed spec fn view(&self) -> DateView {
        DateView { year: self.year as int, month: self.month as int, day: self.day as int }
    }
}

/// The date with the given numbers.
pub closed spec fn date_of(v: DateView) -> Date {
    Date { year: v.year as u16, month: v.month as u8, day: v.day as u8 }
}

/// A date is the date of its numbers.
pub proof fn lemma_date_of_view(d: Date)
    ensures
        date_of(d@) == d,
{
}

/// The numbers of a day of the calendar are those of their date.
pub proof fn lemma_view_of_date(v: DateView)
    requires
        valid_date(v),
    ensures
        date_of(v)@ == v,
{
}

fn leap(y: u32) -> (b: bool)
    ensures
        b == is_leap(y as int),
{
    y % 4 == 0 && (y % 100 != 0 || y % 400 == 0)
}

fn month_length(y: u32, m: u32) -> (n: u32)
    ensures
        n == days_in_month(y as int, m as int),
{
    if m == 2 {
        if leap(y) {
            29
        } else {
            28
        }
    } else if m == 4 || m == 6 || m == 9 || m == 11 {
        30
    } else {
        31
    }
}

fn year_start(y: u32) -> (n: u32)
    requires
        1 <= y <= 10000,
    ensures
        n == days_before_year(y as int),
{
    365 * (y - 1) + (y - 1) / 4 - (y - 1) / 100 + (y - 1) / 400
}

fn month_start(y: u32, m: u32) -> (n: u32)
    requires
        1 <= m <= 13,
    ensures
        n == days_before_month(y as int, m as int),
{
    if m == 1 {
        0
    } else if m == 2 {
        31
    } else {
        let extra: u32 = if leap(y) {
            1
        } else {
            0
        };
        let base: u32 = if m == 3 {
            59
        } else if m == 4 {
            90
        } else if m == 5 {
            120
        } else if m == 6 {
            151
        } else if m == 7 {
            181
        } else if m == 8 {
            212
        } else if m == 9 {
            243
        } else if m == 10 {
            273
        } else if m == 11 {
            304
        } else if m == 12 {
            334
        } else {
            365
        };
        extra + base
    }
}

fn digit_char(n: u32) -> (c: char)
    requires
        n <= 9,
    ensures
        c == digit(n as int),
{
    proof {
        reveal(digit);
    }
    if n == 0 {
        '0'
    } else if n == 1 {
        '1'
    } else if n == 2 {
        '2'
    } else if n == 3 {
        '3'
    } else if n == 4 {
        '4'
    } else if n == 5 {
        '5'
    } else if n == 6 {
        '6'
    } else if n == 7 {
        '7'
    } else if n == 8 {
        '8'
    } else {
        '9'
    }
}

fn digit_of(c: char) -> (r: Option<u32>)
    ensures
        r is Some <==> is_digit(c),
        r matches Some(v) ==> v == digit_value(c) && v <= 9,
{
    proof {
        reveal(digit_value);
    }
    if c == '0' {
        Some(0)
    } else if c == '1' {
        Some(1)
    } else if c == '2' {
        Some(2)
    } else if c == '3' {
        Some(3)
    } else if c == '4' {
        Some(4)
    } else if c == '5' {
        Some(5)
    } else if c == '6' {
        Some(6)
    } else if c == '7' {
        Some(7)
    } else if c == '8' {
        Some(8)
    } else if c == '9' {
        Some(9)
    } else {
        None
    }
}

impl Date {
    /// Every date is a day of the calendar.
    #[verifier::type_invariant]
    pub open spec fn well_formed(self) -> bool {
        valid_date(self@)
    }

    /// Two dates with the same numbers are the same date.
    pub proof fn lemma_same(self, other: Date)
        ensures
            self@ == other@ <==> self == other,
    {
    }

    /// The date with the given numbers, where they name a day of the calendar.
    pub fn new(year: u16, month: u8, day: u8) -> (r: Option<Date>)
        ensures
            r is Some <==> valid_date(
                DateView { year: year as int, month: month as int, day: day as int },
            ),
            r matches Some(d) ==> d@ == (DateView {
                year: year as int,
                month: month as int,
                day: day as int,
            }),
    {
        if 1 <= year && year <= 9999 && 1 <= month && month <= 12 && 1 <= day && day as u32
            <= month_length(year as u32, month as u32) {
            Some(Date { year, month, day })
        } else {
            None
        }
    }

    pub fn year(&self) -> (y: u16)
        ensures
            y == self@.year,
    {
        self.year
    }

    pub fn month(&self) -> (m: u8)
        ensures
            m == self@.month,
    {
        self.month
    }

    pub fn day(&self) -> (d: u8)
        ensures
            d == self@.day,
    {
        self.day
    }

    /// The day after this one; none after 9999-12-31.
    pub fn next_day(&self) -> (r: Option<Date>)
        ensures
            r is Some <==> self@ != last_date(),
            r matches Some(d) ==> d@ == successor(self@),
    {
        proof {
            use_type_invariant(self);
        }
        if (self.day as u32) < month_length(self.year as u32, self.month as u32) {
            Some(Date { year: self.year, month: self.month, day: self.day + 1 })
        } else if self.month < 12 {
            Some(Date { year: self.year, month: self.month + 1, day: 1 })
        } else if self.year < 9999 {
            Some(Date { year: self.year + 1, month: 1, day: 1 })
        } else {
            None
        }
    }

    /// The number of this date, counted from 0001-01-01 as day 1.
    pub fn day_number(&self) -> (n: u32)
        ensures
            n == day_number(self@),
            1 <= n <= LAST_DAY_NUMBER,
    {
        proof {
            use_type_invariant(self);
            lemma_day_number_order(self@, self@);
        }
        year_start(self.year as u32) + month_start(self.year as u32, self.month as u32)
            + self.day as u32
    }

    /// The date with the given day number, where the calendar has one.
    pub fn from_day_number(n: u32) -> (r: Option<Date>)
        ensures
            r is Some <==> 1 <= n <= LAST_DAY_NUMBER,
            r matches Some(d) ==> day_number(d@) == n,
    {
        if n < 1 || n > LAST_DAY_NUMBER {
            return None;
        }
        let mut y: u32 = (n - 1) / 366 + 1;
        while year_start(y + 1) < n
            invariant
                1 <= y <= 9999,
                1 <= n <= LAST_DAY_NUMBER,
                days_before_year(y as int) < n,
            decreases 10000 - y,
        {
            proof {
                if y == 9999 {
                    assert(days_before_year(10000) == LAST_DAY_NUMBER);
                }
            }
            y = y + 1;
        }
        let rest: u32 = n - year_start(y);
        proof {
            lemma_year_length(y as int);
        }
        let mut m: u32 = 1;
        while m < 12 && month_start(y, m + 1) < rest
            invariant
                1 <= m <= 12,
                days_before_month(y as int, m as int) < rest,
            decreases 12 - m,
        {
            m = m + 1;
        }
        let day: u32 = rest - month_start(y, m);
        assert(days_before_month(y as int, m as int) + days_in_month(y as int, m as int)
            == days_before_month(y as int, m + 1));
        Some(Date { year: y as u16, month: m as u8, day: day as u8 })
    }

    /// The date, in universal time, of the moment that lies the given number
    /// of seconds after the start of 1970; none past the end of the calendar.
    pub fn from_unix_seconds(seconds: u64) -> (r: Option<Date>)
        ensures
            r is Some <==> seconds / 86400 + EPOCH_DAY_NUMBER <= LAST_DAY_NUMBER,
            r matches Some(d) ==> day_number(d@) == seconds / 86400 + EPOCH_DAY_NUMBER,
    {
        let days: u64 = seconds / 86400;
        if days > (LAST_DAY_NUMBER - EPOCH_DAY_NUMBER) as u64 {
            None
        } else {
            Date::from_day_number(days as u32 + EPOCH_DAY_NUMBER)
        }
    }

    /// The date that a text of the form YYYY-MM-DD denotes.
    pub fn from_text(text: &str) -> (r: Option<Date>)
        ensures
            r is Some <==> parsed_date(text@) is Some,
            r matches Some(d) ==> parsed_date(text@) == Some(d@),
    {
        let t = chars_of(text);
        if t.len() != 10 || t[4] != '-' || t[7] != '-' {
            return None;
        }
        match (
            digit_of(t[0]),
            digit_of(t[1]),
            digit_of(t[2]),
            digit_of(t[3]),
            digit_of(t[5]),
            digit_of(t[6]),
            digit_of(t[8]),
            digit_of(t[9]),
        ) {
            (Some(a), Some(b), Some(c), Some(d), Some(e), Some(f), Some(g), Some(h)) => {
                let year: u32 = 1000 * a + 100 * b + 10 * c + d;
                let month: u32 = 10 * e + f;
                let day: u32 = 10 * g + h;
                Date::new(year as u16, month as u8, day as u8)
            },
            _ => None,
        }
    }

    /// Reads a date written as YYYY-MM-DD. A text that names no date of the
    /// calendar in that form is refused, and the refusal names the text.
    pub fn parse(text: &str) -> (r: Result<Date, ParseError>)
        ensures
            r is Ok <==> parsed_date(text@) is Some,
            r matches Ok(d) ==> parsed_date(text@) == Some(d@),
            r matches Err(e) ==> e@ == (ParseErrorView::Date { text: text@ }),
    {
        match Date::from_text(text) {
            Some(d) => Ok(d),
            None => Err(ParseError::Date { text: String::from_str(text) }),
        }
    }

    /// The date written as YYYY-MM-DD.
    pub fn to_text(&self) -> (r: String)
        ensures
            r@ == date_text(self@),
    {
        proof {
            use_type_invariant(self);
        }
        let y: u32 = self.year as u32;
        let m: u32 = self.month as u32;
        let d: u32 = self.day as u32;
        let mut v: Vec<char> = Vec::new();
        v.push(digit_char(y / 1000));
        v.push(digit_char(y / 100 % 10));
        v.push(digit_char(y / 10 % 10));
        v.push(digit_char(y % 10));
        v.push('-');
        v.push(digit_char(m / 10));
        v.push(digit_char(m % 10));
        v.push('-');
        v.push(digit_char(d / 10));
        v.push(digit_char(d % 10));
        assert(v@ =~= date_text(self@));
        string_of(&v)
    }
}

/// The `count` consecutive dates that begin with `anchor`, in ascending order.
///
/// The run has to end within the calendar.
pub fn dates_from(anchor: Date, count: u32) -> (r: Vec<Date>)
    requires
        count == 0 || day_number(anchor@) + count - 1 <= LAST_DAY_NUMBER,
    ensures
        r.len() == count,
        count > 0 ==> r[0] == anchor,
        forall|i: int| 0 <= i < count ==> valid_date(#[trigger] r[i]@),
        forall|i: int| 0 <= i < count ==> day_number(#[trigger] r[i]@) == day_number(anchor@) + i,
        forall|i: int| 0 <= i < count - 1 ==> #[trigger] day_after(r@, i),
        forall|i: int, j: int| 0 <= i < j < count ==> earlier(#[trigger] r[i]@, #[trigger] r[j]@),
{
    let mut r: Vec<Date> = Vec::new();
    let mut current = anchor;
    let mut i: u32 = 0;
    while i < count
        invariant
            i <= count,
            count == 0 || day_number(anchor@) + count - 1 <= LAST_DAY_NUMBER,
            r.len() == i,
            i < count ==> day_number(current@) == day_number(anchor@) + i,
            i > 0 ==> r[0] == anchor,
            i == 0 ==> current == anchor,
            0 < i < count ==> current@ == successor(r[i - 1]@),
            forall|k: int| 0 <= k < i ==> day_number(#[trigger] r[k]@) == day_number(anchor@) + k,
            forall|k: int| 0 <= k < i ==> valid_date(#[trigger] r[k]@),
            forall|k: int| 0 <= k < i - 1 ==> #[trigger] day_after(r@, k),
        decreases count - i,
    {
        proof {
            use_type_invariant(&current);
        }
        let ghost before = r@;
        r.push(current);
        i = i + 1;
        assert forall|k: int| 0 <= k < i - 1 implies #[trigger] day_after(r@, k) by {
            if k < i - 2 {
                assert(day_after(before, k));
            }
        }
        if i < count {
            proof {
                lemma_not_last(current@);
                lemma_successor(current@);
            }
            match current.next_day() {
                Some(d) => {
                    current = d;
                },
                None => {},
            }
        }
    }
    assert forall|a: int, b: int| 0 <= a < b < count implies earlier(
        #[trigger] r[a]@,
        #[trigger] r[b]@,
    ) by {
        lemma_day_number_order(r[a]@, r[b]@);
    }
    r
}

} // verus!
