//! Calendar values: months, weekdays, dates and clock times, with the
//! proleptic Gregorian day numbering that their arithmetic is stated over.
use chrono::Datelike;
use vstd::arithmetic::div_mod::lemma_fundamental_div_mod_converse;
use vstd::prelude::*;

verus! {

/// The earliest year that a `Date` may hold.
pub const MIN_YEAR: i32 = -262143;

/// The latest year that a `Date` may hold.
pub const MAX_YEAR: i32 = 262142;

/// A month of the year.
#[derive(Debug, Clone, Copy, PartialEq, Eq, Structural)]
pub enum MonthOfYear {
    Jan,
    Feb,
    Mar,
    Apr,
    May,
    Jun,
    Jul,
    Aug,
    Sep,
    Oct,
    Nov,
    Dec,
}

impl MonthOfYear {
    /// The month's ordinal, January being 1.
    pub open spec fn number(self) -> int {
        match self {
            MonthOfYear::Jan => 1,
            MonthOfYear::Feb => 2,
            MonthOfYear::Mar => 3,
            MonthOfYear::Apr => 4,
            MonthOfYear::May => 5,
            MonthOfYear::Jun => 6,
            MonthOfYear::Jul => 7,
            MonthOfYear::Aug => 8,
            MonthOfYear::Sep => 9,
            MonthOfYear::Oct => 10,
            MonthOfYear::Nov => 11,
            MonthOfYear::Dec => 12,
        }
    }

    /// The month's ordinal, January being 1.
    pub fn to_num(&self) -> (r: u32)
        ensures
            r == self.number(),
            1 <= r <= 12,
    {
        match self {
            MonthOfYear::Jan => 1,
            MonthOfYear::Feb => 2,
            MonthOfYear::Mar => 3,
            MonthOfYear::Apr => 4,
            MonthOfYear::May => 5,
            MonthOfYear::Jun => 6,
            MonthOfYear::Jul => 7,
            MonthOfYear::Aug => 8,
            MonthOfYear::Sep => 9,
            MonthOfYear::Oct => 10,
            MonthOfYear::Nov => 11,
            MonthOfYear::Dec => 12,
        }
    }
}

/// The month with ordinal `n`, if there is one.
pub open spec fn month_numbered(n: int) -> Option<MonthOfYear> {
    if n == 1 {
        Some(MonthOfYear::Jan)
    } else if n == 2 {
        Some(MonthOfYear::Feb)
    } else if n == 3 {
        Some(MonthOfYear::Mar)
    } else if n == 4 {
        Some(MonthOfYear::Apr)
    } else if n == 5 {
        Some(MonthOfYear::May)
    } else if n == 6 {
        Some(MonthOfYear::Jun)
    } else if n == 7 {
        Some(MonthOfYear::Jul)
    } else if n == 8 {
        Some(MonthOfYear::Aug)
    } else if n == 9 {
        Some(MonthOfYear::Sep)
    } else if n == 10 {
        Some(MonthOfYear::Oct)
    } else if n == 11 {
        Some(MonthOfYear::Nov)
    } else if n == 12 {
        Some(MonthOfYear::Dec)
    } else {
        None
    }
}

/// Converts a month ordinal to a `MonthOfYear`.
pub fn num_to_month(num: u32) -> (r: Option<MonthOfYear>)
    ensures
        r == month_numbered(num as int),
        r is Some <==> 1 <= num <= 12,
        r matches Some(m) ==> m.number() == num,
{
    match num {
        1 => Some(MonthOfYear::Jan),
        2 => Some(MonthOfYear::Feb),
        3 => Some(MonthOfYear::Mar),
        4 => Some(MonthOfYear::Apr),
        5 => Some(MonthOfYear::May),
        6 => Some(MonthOfYear::Jun),
        7 => Some(MonthOfYear::Jul),
        8 => Some(MonthOfYear::Aug),
        9 => Some(MonthOfYear::Sep),
        10 => Some(MonthOfYear::Oct),
        11 => Some(MonthOfYear::Nov),
        12 => Some(MonthOfYear::Dec),
        _ => None,
    }
}

/// A day of the week.
#[derive(Debug, Clone, Copy, PartialEq, Eq, Structural)]
pub enum DayOfWeek {
    Sun,
    Mon,
    Tue,
    Wed,
    Thu,
    Fri,
    Sat,
}

impl DayOfWeek {
    /// The number of days from Sunday to this day.
    pub open spec fn index(self) -> int {
        match self {
            DayOfWeek::Sun => 0,
            DayOfWeek::Mon => 1,
            DayOfWeek::Tue => 2,
            DayOfWeek::Wed => 3,
            DayOfWeek::Thu => 4,
            DayOfWeek::Fri => 5,
            DayOfWeek::Sat => 6,
        }
    }

    /// The number of days from Sunday to this day.
    pub fn num_days_from_sunday(&self) -> (r: u32)
        ensures
            r == self.index(),
            r < 7,
    {
        match self {
            DayOfWeek::Sun => 0,
            DayOfWeek::Mon => 1,
            DayOfWeek::Tue => 2,
            DayOfWeek::Wed => 3,
            DayOfWeek::Thu => 4,
            DayOfWeek::Fri => 5,
            DayOfWeek::Sat => 6,
        }
    }
}

pub open spec fn is_leap_year(y: int) -> bool {
    (y % 4 == 0 && y % 100 != 0) || y % 400 == 0
}

pub open spec fn year_length(y: int) -> int {
    if is_leap_year(y) {
        366
    } else {
        365
    }
}

pub open spec fn days_in_month(y: int, m: int) -> int {
    if m == 2 {
        if is_leap_year(y) {
            29
        } else {
            28
        }
    } else if m == 4 || m == 6 || m == 9 || m == 11 {
        30
    } else {
        31
    }
}

/// Days of year `y` that come before the first of month `m`.
pub open spec fn days_before_month(y: int, m: int) -> int {
    let l: int = if is_leap_year(y) {
        1
    } else {
        0
    };
    if m <= 1 {
        0
    } else if m == 2 {
        31
    } else if m == 3 {
        59 + l
    } else if m == 4 {
        90 + l
    } else if m == 5 {
        120 + l
    } else if m == 6 {
        151 + l
    } else if m == 7 {
        181 + l
    } else if m == 8 {
        212 + l
    } else if m == 9 {
        243 + l
    } else if m == 10 {
        273 + l
    } else if m == 11 {
        304 + l
    } else {
        334 + l
    }
}

/// Days before January 1st of year `y`, counted from January 1st of year 1.
pub open spec fn days_before_year(y: int) -> int {
    365 * (y - 1) + (y - 1) / 4 - (y - 1) / 100 + (y - 1) / 400
}

/// A calendar date (proleptic Gregorian).
#[derive(Debug, Clone, Copy, PartialEq, Eq, Structural)]
pub struct Date {
    pub year: i32,
    pub month: u32,
    pub day: u32,
}

impl Date {
    /// The date exists and lies in the supported range of years.
    pub open spec fn wf(self) -> bool {
        &&& MIN_YEAR <= self.year <= MAX_YEAR
        &&& 1 <= self.month <= 12
        &&& 1 <= self.day <= days_in_month(self.year as int, self.month as int)
    }
}

/// The number of the day: January 1st of year 1 is day 1.
pub open spec fn day_number(d: Date) -> int {
    days_before_year(d.year as int) + days_before_month(d.year as int, d.month as int)
        + d.day as int
}

pub open spec fn first_date() -> Date {
    Date { year: MIN_YEAR, month: 1, day: 1 }
}

pub open spec fn last_date() -> Date {
    Date { year: MAX_YEAR, month: 12, day: 31 }
}

/// Day number `n` belongs to a supported date.
pub open spec fn in_range(n: int) -> bool {
    day_number(first_date()) <= n <= day_number(last_date())
}

/// The weekday of a date, as days from Sunday (day 1 was a Monday).
pub open spec fn weekday_index(d: Date) -> int {
    day_number(d) % 7
}

/// The supported date with day number `n`.
pub open spec fn date_numbered(n: int) -> Date {
    choose|d: Date| d.wf() && day_number(d) == n
}

/// The date `n` days after `d`, if it is supported.
pub open spec fn add_days_spec(d: Date, n: int) -> Option<Date> {
    if in_range(day_number(d) + n) {
        Some(date_numbered(day_number(d) + n))
    } else {
        None
    }
}

/// The day after `d`, from the lengths of the months.
pub open spec fn next_day(d: Date) -> Date {
    if (d.day as int) < days_in_month(d.year as int, d.month as int) {
        Date { day: (d.day + 1) as u32, ..d }
    } else if d.month < 12 {
        Date { month: (d.month + 1) as u32, day: 1, ..d }
    } else {
        Date { year: (d.year + 1) as i32, month: 1, day: 1 }
    }
}

proof fn lemma_div_step(x: int, k: int)
    requires
        k > 0,
    ensures
        (x + 1) / k == x / k + (if (x + 1) % k == 0 {
            1int
        } else {
            0int
        }),
{
    let q = x / k;
    let r = x % k;
    vstd::arithmetic::div_mod::lemma_fundamental_div_mod(x, k);
    vstd::arithmetic::div_mod::lemma_mod_bound(x, k);
    if r == k - 1 {
        assert(x + 1 == (q + 1) * k + 0) by (nonlinear_arith)
            requires
                x == k * q + r,
                r == k - 1,
        ;
        lemma_fundamental_div_mod_converse(x + 1, k, q + 1, 0);
    } else {
        assert(x + 1 == q * k + (r + 1)) by (nonlinear_arith)
            requires
                x == k * q + r,
        ;
        lemma_fundamental_div_mod_converse(x + 1, k, q, r + 1);
    }
}

proof fn lemma_divides(y: int, a: int, b: int)
    requires
        a > 0,
        b > 0,
        y % (a * b) == 0,
    ensures
        y % a == 0,
{
    assert(a * b > 0) by (nonlinear_arith)
        requires
            a > 0,
            b > 0,
    ;
    vstd::arithmetic::div_mod::lemma_fundamental_div_mod(y, a * b);
    let q = y / (a * b);
    assert(y == (q * b) * a + 0) by (nonlinear_arith)
        requires
            y == (a * b) * q + y % (a * b),
            y % (a * b) == 0,
    ;
    lemma_fundamental_div_mod_converse(y, a, q * b, 0);
}

/// Each year adds its own length to the count of days before the next.
pub proof fn lemma_year_step(y: int)
    ensures
        days_before_year(y + 1) == days_before_year(y) + year_length(y),
{
    lemma_div_step(y - 1, 4);
    lemma_div_step(y - 1, 100);
    lemma_div_step(y - 1, 400);
    if y % 100 == 0 {
        lemma_divides(y, 4, 25);
    }
    if y % 400 == 0 {
        lemma_divides(y, 100, 4);
    }
    let a = (y - 1) / 4;
    let b = (y - 1) / 100;
    let c = (y - 1) / 400;
    assert(days_before_year(y) == 365 * (y - 1) + a - b + c);
    assert(days_before_year(y + 1) == 365 * y + y / 4 - y / 100 + y / 400);
}

proof fn lemma_years_apart(y1: int, y2: int)
    requires
        y1 < y2,
    ensures
        days_before_year(y1) + year_length(y1) <= days_before_year(y2),
    decreases y2 - y1,
{
    lemma_year_step(y1);
    if y1 + 1 < y2 {
        lemma_years_apart(y1 + 1, y2);
    }
}

proof fn lemma_within_year(d: Date)
    requires
        1 <= d.month <= 12,
        1 <= d.day <= days_in_month(d.year as int, d.month as int),
    ensures
        1 <= days_before_month(d.year as int, d.month as int) + d.day <= year_length(
            d.year as int,
        ),
{
}

/// Day numbers follow the order of (year, month, day).
pub proof fn lemma_date_order(a: Date, b: Date)
    requires
        a.wf(),
        b.wf(),
        a.year < b.year || (a.year == b.year && a.month < b.month) || (a.year == b.year
            && a.month == b.month && a.day < b.day),
    ensures
        day_number(a) < day_number(b),
{
    lemma_within_year(a);
    lemma_within_year(b);
    if a.year < b.year {
        lemma_years_apart(a.year as int, b.year as int);
    }
}

/// A supported date is determined by its day number.
pub proof fn lemma_day_number_injective(a: Date, b: Date)
    requires
        a.wf(),
        b.wf(),
        day_number(a) == day_number(b),
    ensures
        a == b,
{
    if a.year < b.year || (a.year == b.year && a.month < b.month) || (a.year == b.year
        && a.month == b.month && a.day < b.day) {
        lemma_date_order(a, b);
    } else if b.year < a.year || (a.year == b.year && b.month < a.month) || (a.year == b.year
        && a.month == b.month && b.day < a.day) {
        lemma_date_order(b, a);
    }
}

/// A supported date is the one that its day number names.
pub proof fn lemma_date_numbered(d: Date)
    requires
        d.wf(),
    ensures
        date_numbered(day_number(d)) == d,
        in_range(day_number(d)),
{
    let e = date_numbered(day_number(d));
    assert(d.wf() && day_number(d) == day_number(d));
    lemma_day_number_injective(e, d);
    let f = first_date();
    let l = last_date();
    if d != f {
        lemma_date_order(f, d);
    }
    if d != l {
        lemma_date_order(d, l);
    }
}

/// The day after a date has the next day number.
pub proof fn lemma_next_day(d: Date)
    requires
        d.wf(),
        d != last_date(),
    ensures
        next_day(d).wf(),
        day_number(next_day(d)) == day_number(d) + 1,
{
    if d.month == 12 && d.day as int == days_in_month(d.year as int, 12) {
        lemma_year_step(d.year as int);
    }
}

/// A clock time of day.
#[derive(Debug, Clone, Copy, PartialEq, Eq, Structural)]
pub struct TimeOfDay {
    pub hour: u32,
    pub minute: u32,
}

impl TimeOfDay {
    pub open spec fn wf(self) -> bool {
        self.hour < 24 && self.minute < 60
    }

    /// Minutes since midnight.
    pub open spec fn minutes(self) -> int {
        self.hour * 60 + self.minute
    }
}

/// The clock time `m` minutes after midnight, on a 24-hour clock that wraps.
pub open spec fn time_at_minute(m: int) -> TimeOfDay {
    let w = m % 1440;
    TimeOfDay { hour: (w / 60) as u32, minute: (w % 60) as u32 }
}

/// The time `n` minutes after `t`, wrapping at midnight.
pub fn add_minutes_wrapping(t: TimeOfDay, n: u64) -> (r: TimeOfDay)
    requires
        t.wf(),
        n <= 1_000_000_000_000,
    ensures
        r == time_at_minute(t.minutes() + n),
        r.wf(),
{
    let total: u64 = (t.hour as u64) * 60 + (t.minute as u64) + (n as u64);
    let w: u64 = total % 1440;
    TimeOfDay { hour: (w / 60) as u32, minute: (w % 60) as u32 }
}

/// A date and a clock time.
#[derive(Debug, Clone, Copy, PartialEq, Eq, Structural)]
pub struct DateTime {
    pub date: Date,
    pub time: TimeOfDay,
}

impl DateTime {
    pub open spec fn wf(self) -> bool {
        self.date.wf() && self.time.wf()
    }
}

/// The instant one hour after `dt`, if its date is supported.
pub open spec fn hour_later(dt: DateTime) -> Option<DateTime> {
    if dt.time.hour < 23 {
        Some(DateTime { time: TimeOfDay { hour: (dt.time.hour + 1) as u32, ..dt.time }, ..dt })
    } else {
        match add_days_spec(dt.date, 1) {
            Some(d) => Some(DateTime { date: d, time: TimeOfDay { hour: 0, ..dt.time } }),
            None => None,
        }
    }
}

/// Relies on chrono's `NaiveDate::from_ymd_opt`: `Some` exactly for an existing
/// date whose year lies in chrono's range.
#[verifier::external_body]
pub(crate) fn date_from_ymd(year: i32, month: u32, day: u32) -> (r: Option<Date>)
    ensures
        r is Some <==> (Date { year, month, day }).wf(),
        r matches Some(d) ==> d == (Date { year, month, day }),
{
    match chrono::NaiveDate::from_ymd_opt(year, month, day) {
        Some(x) => Some(Date { year: x.year(), month: x.month(), day: x.day() }),
        None => None,
    }
}

/// Relies on chrono's `NaiveDate::checked_add_signed` with a whole number of
/// days: the date that many days later, or `None` outside chrono's range.
#[verifier::external_body]
pub(crate) fn add_days(d: Date, n: i64) -> (r: Option<Date>)
    requires
        d.wf(),
        -1_000_000_000 <= n <= 1_000_000_000,
    ensures
        match r {
            Some(x) => x.wf() && day_number(x) == day_number(d) + n,
            None => !in_range(day_number(d) + n),
        },
{
    let nd = chrono::NaiveDate::from_ymd_opt(d.year, d.month, d.day).unwrap();
    match nd.checked_add_signed(chrono::TimeDelta::days(n)) {
        Some(x) => Some(Date { year: x.year(), month: x.month(), day: x.day() }),
        None => None,
    }
}

/// Relies on chrono's `Datelike::weekday` for `NaiveDate`: the weekday of the
/// date (January 1st of year 1 was a Monday).
#[verifier::external_body]
pub(crate) fn weekday_of(d: Date) -> (r: DayOfWeek)
    requires
        d.wf(),
    ensures
        r.index() == weekday_index(d),
{
    match chrono::NaiveDate::from_ymd_opt(d.year, d.month, d.day).unwrap().weekday() {
        chrono::Weekday::Sun => DayOfWeek::Sun,
        chrono::Weekday::Mon => DayOfWeek::Mon,
        chrono::Weekday::Tue => DayOfWeek::Tue,
        chrono::Weekday::Wed => DayOfWeek::Wed,
        chrono::Weekday::Thu => DayOfWeek::Thu,
        chrono::Weekday::Fri => DayOfWeek::Fri,
        chrono::Weekday::Sat => DayOfWeek::Sat,
    }
}

/// Relies on chrono's `Utc::now`: the current UTC date and clock time, to the minute.
#[verifier::external_body]
pub(crate) fn utc_now() -> (r: DateTime)
    ensures
        r.wf(),
{
    let now = chrono::Utc::now().naive_utc();
    let date = Date { year: now.year(), month: now.month(), day: now.day() };
    let time = TimeOfDay {
        hour: chrono::Timelike::hour(&now),
        minute: chrono::Timelike::minute(&now),
    };
    DateTime { date, time }
}

/// The date `n` days after `d`, as chrono computes it.
pub fn shift_days(d: Date, n: i64) -> (r: Option<Date>)
    requires
        d.wf(),
        -1_000_000_000 <= n <= 1_000_000_000,
    ensures
        r == add_days_spec(d, n as int),
        r matches Some(x) ==> x.wf() && day_number(x) == day_number(d) + n,
        r is None <==> !in_range(day_number(d) + n),
{
    let r = add_days(d, n);
    proof {
        if let Some(x) = r {
            lemma_date_numbered(x);
        }
    }
    r
}

/// The instant one hour after `dt`.
pub fn add_hour(dt: DateTime) -> (r: Option<DateTime>)
    requires
        dt.wf(),
    ensures
        r == hour_later(dt),
        r matches Some(x) ==> x.wf(),
{
    if dt.time.hour < 23 {
        Some(DateTime { date: dt.date, time: TimeOfDay { hour: dt.time.hour + 1, minute: dt.time.minute } })
    } else {
        match shift_days(dt.date, 1) {
            Some(d) => Some(DateTime { date: d, time: TimeOfDay { hour: 0, minute: dt.time.minute } }),
            None => None,
        }
    }
}

} // verus!
