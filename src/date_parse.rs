//! Recognizing date expressions in text and resolving them against a reference date.
use crate::calendar::{
    date_numbered, last_date, lemma_next_day, next_day, add_days_spec, date_from_ymd, day_number, days_in_month, in_range, lemma_date_numbered,
    month_numbered, num_to_month, shift_days, weekday_index, weekday_of, Date, DayOfWeek,
    MonthOfYear, MAX_YEAR, MIN_YEAR,
};
use crate::grammar::Table;
use crate::patterns::{
    day_from, day_from_pos, full_date_at, full_date_at_pos, in_count_at, in_count_at_pos,
    keyword_at, keyword_at_pos, month_date_at, month_date_at_pos, month_from, month_from_pos,
    numeric_date_at, numeric_date_at_pos, qualified_month_at, qualified_month_at_pos,
    qualified_word_at, qualified_word_at_pos,
};
use crate::recognizable::Recognizable;
use crate::search::{find_from, first_match, Pattern};
use crate::text::{chars_of, digits_num, digits_value, lit_ci_at};
use vstd::arithmetic::div_mod::{
    lemma_fundamental_div_mod, lemma_fundamental_div_mod_converse, lemma_mod_bound,
};
use vstd::prelude::*;

verus! {

/// Why no date came out of a text.
#[derive(Debug, Clone, Copy, PartialEq, Eq, Structural)]
pub enum DateParseError {
    /// Nothing in the text reads as a date.
    DateUnknown,
    /// Something reads as a date but names none, e.g. January 45th.
    DateBad,
}

impl DateParseError {
    /// A message for the error.
    pub fn message(&self) -> &'static str {
        match self {
            DateParseError::DateUnknown => "Error: Date unknown",
            DateParseError::DateBad => "Error: Bad date",
        }
    }
}

/// A date as the text states it, before it is placed on the calendar.
#[derive(Debug, Clone, Copy, PartialEq, Eq, Structural)]
pub enum DateExpr {
    /// `n` days from the reference date.
    InNDays(i32),
    /// The given weekday of the week `n` weeks from the reference date's week.
    DayInNWeeks(i8, DayOfWeek),
    /// The same day of the month, `n` months from the reference date.
    InNMonths(i32),
    /// A month and day in the reference date's year.
    InMonth(MonthOfYear, u32),
    /// A month, day and year; the year is taken as written, so `19` is year 19.
    InYear(MonthOfYear, u32, i32),
}

/// The month that stem `k` of the month names stands for.
pub open spec fn stem_month(k: int) -> MonthOfYear {
    if k <= 1 {
        MonthOfYear::Jan
    } else if k == 2 {
        MonthOfYear::Feb
    } else if k <= 4 {
        MonthOfYear::Mar
    } else if k == 5 {
        MonthOfYear::Apr
    } else if k == 6 {
        MonthOfYear::May
    } else if k == 7 {
        MonthOfYear::Jun
    } else if k == 8 {
        MonthOfYear::Jul
    } else if k == 9 {
        MonthOfYear::Aug
    } else if k == 10 {
        MonthOfYear::Sep
    } else if k == 11 {
        MonthOfYear::Oct
    } else if k == 12 {
        MonthOfYear::Nov
    } else {
        MonthOfYear::Dec
    }
}

fn stem_month_of(k: usize) -> (r: MonthOfYear)
    ensures
        r == stem_month(k as int),
{
    if k <= 1 {
        MonthOfYear::Jan
    } else if k == 2 {
        MonthOfYear::Feb
    } else if k <= 4 {
        MonthOfYear::Mar
    } else if k == 5 {
        MonthOfYear::Apr
    } else if k == 6 {
        MonthOfYear::May
    } else if k == 7 {
        MonthOfYear::Jun
    } else if k == 8 {
        MonthOfYear::Jul
    } else if k == 9 {
        MonthOfYear::Aug
    } else if k == 10 {
        MonthOfYear::Sep
    } else if k == 11 {
        MonthOfYear::Oct
    } else if k == 12 {
        MonthOfYear::Nov
    } else {
        MonthOfYear::Dec
    }
}

/// The weekday that stem `k` of the weekday names stands for.
pub open spec fn stem_day(k: int) -> DayOfWeek {
    if k == 0 {
        DayOfWeek::Mon
    } else if k == 1 {
        DayOfWeek::Tue
    } else if k == 2 {
        DayOfWeek::Wed
    } else if k == 3 {
        DayOfWeek::Thu
    } else if k == 4 {
        DayOfWeek::Fri
    } else if k == 5 {
        DayOfWeek::Sat
    } else {
        DayOfWeek::Sun
    }
}

fn stem_day_of(k: usize) -> (r: DayOfWeek)
    ensures
        r == stem_day(k as int),
{
    if k == 0 {
        DayOfWeek::Mon
    } else if k == 1 {
        DayOfWeek::Tue
    } else if k == 2 {
        DayOfWeek::Wed
    } else if k == 3 {
        DayOfWeek::Thu
    } else if k == 4 {
        DayOfWeek::Fri
    } else if k == 5 {
        DayOfWeek::Sat
    } else {
        DayOfWeek::Sun
    }
}

/// The offset that qualifier `j` (`next`, `last`, `this`) stands for.
pub open spec fn qualifier_offset(j: int) -> int {
    if j == 0 {
        1
    } else if j == 1 {
        -1
    } else {
        0
    }
}

fn qualifier_offset_of(j: usize) -> (r: i8)
    ensures
        r == qualifier_offset(j as int),
{
    if j == 0 {
        1
    } else if j == 1 {
        -1
    } else {
        0
    }
}

/// The weekday whose three-letter stem, in any ASCII case, starts `s`.
pub open spec fn short_day(s: Seq<char>) -> Option<DayOfWeek> {
    if lit_ci_at(s, 0, "mon"@) {
        Some(DayOfWeek::Mon)
    } else if lit_ci_at(s, 0, "tue"@) {
        Some(DayOfWeek::Tue)
    } else if lit_ci_at(s, 0, "wed"@) {
        Some(DayOfWeek::Wed)
    } else if lit_ci_at(s, 0, "thu"@) {
        Some(DayOfWeek::Thu)
    } else if lit_ci_at(s, 0, "fri"@) {
        Some(DayOfWeek::Fri)
    } else if lit_ci_at(s, 0, "sat"@) {
        Some(DayOfWeek::Sat)
    } else if lit_ci_at(s, 0, "sun"@) {
        Some(DayOfWeek::Sun)
    } else {
        None
    }
}

/// What completes the stem of weekday `d` to its full name.
pub open spec fn long_suffix(d: DayOfWeek) -> Seq<char> {
    match d {
        DayOfWeek::Tue => "sday"@,
        DayOfWeek::Wed => "nesday"@,
        DayOfWeek::Thu => "rsday"@,
        DayOfWeek::Sat => "urday"@,
        _ => "day"@,
    }
}

/// The weekday that `s` names: its three-letter stem or its full English
/// name, in any ASCII case, and nothing more.
pub open spec fn weekday_named(s: Seq<char>) -> Option<DayOfWeek> {
    if s.len() < 3 {
        None
    } else {
        match short_day(s) {
            Some(d) => {
                let rest = s.subrange(3, s.len() as int);
                if rest.len() == 0 || (rest.len() == long_suffix(d).len() && lit_ci_at(
                    rest,
                    0,
                    long_suffix(d),
                )) {
                    Some(d)
                } else {
                    None
                }
            },
            None => None,
        }
    }
}

/// Relies on chrono's `FromStr for Weekday`, which accepts a weekday's
/// three-letter abbreviation or full English name in any ASCII case, and
/// nothing else.
#[verifier::external_body]
pub(crate) fn weekday_from_name(s: &str) -> (r: Option<DayOfWeek>)
    ensures
        r == weekday_named(s@),
{
    match s.parse::<chrono::Weekday>() {
        Ok(chrono::Weekday::Sun) => Some(DayOfWeek::Sun),
        Ok(chrono::Weekday::Mon) => Some(DayOfWeek::Mon),
        Ok(chrono::Weekday::Tue) => Some(DayOfWeek::Tue),
        Ok(chrono::Weekday::Wed) => Some(DayOfWeek::Wed),
        Ok(chrono::Weekday::Thu) => Some(DayOfWeek::Thu),
        Ok(chrono::Weekday::Fri) => Some(DayOfWeek::Fri),
        Ok(chrono::Weekday::Sat) => Some(DayOfWeek::Sat),
        Err(_) => None,
    }
}

/// The outcome of one date pattern.
pub type Found = Result<Option<DateExpr>, DateParseError>;

/// `today`, `tomorrow` or `yesterday`.
pub open spec fn keywords_in(t: Seq<char>) -> Found {
    match first_match(Pattern::Keyword, t, 0) {
        Some(s) => match keyword_at(t, s) {
            Some((j, e)) => Ok(
                Some(
                    DateExpr::InNDays(
                        if j == 0 {
                            0i32
                        } else if j == 1 {
                            1i32
                        } else {
                            -1i32
                        },
                    ),
                ),
            ),
            None => Ok(None),
        },
        None => Ok(None),
    }
}

/// `in N days`.
pub open spec fn relative_days_in(t: Seq<char>) -> Found {
    match first_match(Pattern::InDays, t, 0) {
        Some(s) => match in_count_at(t, s, "day"@) {
            Some((e, n)) => Ok(Some(DateExpr::InNDays(digits_value(t, s + 3, n as nat) as i32))),
            None => Ok(None),
        },
        None => Ok(None),
    }
}

/// `M/D/Y`; a month number outside 1 to 12 is malformed.
pub open spec fn full_date_in(t: Seq<char>) -> Found {
    match first_match(Pattern::FullDate, t, 0) {
        Some(s) => match full_date_at(t, s) {
            Some((e, ml, dl, yl)) => {
                let m = digits_value(t, s, ml as nat);
                let d = digits_value(t, s + ml + 1, dl as nat);
                let y = digits_value(t, s + ml + dl + 2, yl as nat);
                match month_numbered(m) {
                    Some(mo) => Ok(Some(DateExpr::InYear(mo, d as u32, y as i32))),
                    None => Err(DateParseError::DateBad),
                }
            },
            None => Ok(None),
        },
        None => Ok(None),
    }
}

/// `M/D`; a month number outside 1 to 12 is malformed.
pub open spec fn numeric_date_in(t: Seq<char>) -> Found {
    match first_match(Pattern::NumericDate, t, 0) {
        Some(s) => match numeric_date_at(t, s) {
            Some((e, ml, dl)) => {
                let m = digits_value(t, s, ml as nat);
                let d = digits_value(t, s + ml + 1, dl as nat);
                match month_numbered(m) {
                    Some(mo) => Ok(Some(DateExpr::InMonth(mo, d as u32))),
                    None => Err(DateParseError::DateBad),
                }
            },
            None => Ok(None),
        },
        None => Ok(None),
    }
}

/// An English month name and a day; the first month name matched with no
/// day after it gives nothing.
pub open spec fn month_day_in(t: Seq<char>) -> Found {
    match first_match(Pattern::MonthDate, t, 0) {
        Some(s) => match month_date_at(t, s) {
            Some((e, k, d, dl)) => if dl == 0 {
                Ok(None)
            } else {
                Ok(Some(DateExpr::InMonth(stem_month(k), digits_value(t, d, dl as nat) as u32)))
            },
            None => Ok(None),
        },
        None => Ok(None),
    }
}

/// `next`, `last` or `this` and a weekday name; the first qualifier matched
/// with another word after it gives nothing.
pub open spec fn qualified_day_in(t: Seq<char>) -> Found {
    match first_match(Pattern::QualifiedWord, t, 0) {
        Some(s) => match qualified_word_at(t, s) {
            Some((e, j, ws, wl)) => match weekday_named(t.subrange(ws, ws + wl)) {
                Some(d) => Ok(Some(DateExpr::DayInNWeeks(qualifier_offset(j) as i8, d))),
                None => Ok(None),
            },
            None => Ok(None),
        },
        None => Ok(None),
    }
}

/// `in N months`.
pub open spec fn relative_months_in(t: Seq<char>) -> Found {
    match first_match(Pattern::InMonths, t, 0) {
        Some(s) => match in_count_at(t, s, "month"@) {
            Some((e, n)) => Ok(Some(DateExpr::InNMonths(digits_value(t, s + 3, n as nat) as i32))),
            None => Ok(None),
        },
        None => Ok(None),
    }
}

/// `next month`, `last month` or `this month`.
pub open spec fn qualified_month_in(t: Seq<char>) -> Found {
    match first_match(Pattern::QualifiedMonth, t, 0) {
        Some(s) => match qualified_month_at(t, s) {
            Some((j, e)) => Ok(Some(DateExpr::InNMonths(qualifier_offset(j) as i32))),
            None => Ok(None),
        },
        None => Ok(None),
    }
}

/// A weekday name on its own: that day of this week.
pub open spec fn day_alone_in(t: Seq<char>) -> Found {
    match first_match(Pattern::DayName, t, 0) {
        Some(s) => match day_from(t, s, Table::DayStem, 0) {
            Some((k, e)) => Ok(Some(DateExpr::DayInNWeeks(0, stem_day(k)))),
            None => Ok(None),
        },
        None => Ok(None),
    }
}

/// The first of two outcomes that found an expression; else the first error.
pub open spec fn or_else<T, E>(a: Result<Option<T>, E>, b: Result<Option<T>, E>) -> Result<
    Option<T>,
    E,
> {
    match a {
        Ok(Some(x)) => Ok(Some(x)),
        Ok(None) => b,
        Err(e) => match b {
            Ok(Some(y)) => Ok(Some(y)),
            _ => Err(e),
        },
    }
}

/// The date expression of a text: the patterns in priority order, the first
/// that finds one winning; malformed only when none finds one and some
/// pattern matched with an unusable value.
pub open spec fn date_recognized(t: Seq<char>) -> Found {
    or_else(
        keywords_in(t),
        or_else(
            relative_days_in(t),
            or_else(
                full_date_in(t),
                or_else(
                    numeric_date_in(t),
                    or_else(
                        month_day_in(t),
                        or_else(
                            qualified_day_in(t),
                            or_else(
                                relative_months_in(t),
                                or_else(qualified_month_in(t), day_alone_in(t)),
                            ),
                        ),
                    ),
                ),
            ),
        ),
    )
}

fn parse_keywords(t: &Vec<char>) -> (r: Found)
    ensures
        r == keywords_in(t@),
{
    let tl = t.len();
    match find_from(Pattern::Keyword, t, 0) {
        Some(s) => match keyword_at_pos(t, s) {
            Some((j, _)) => {
                let n: i32 = if j == 0 {
                    0
                } else if j == 1 {
                    1
                } else {
                    -1
                };
                Ok(Some(DateExpr::InNDays(n)))
            },
            None => Ok(None),
        },
        None => Ok(None),
    }
}

fn parse_relative_date(t: &Vec<char>) -> (r: Found)
    ensures
        r == relative_days_in(t@),
{
    let tl = t.len();
    match find_from(Pattern::InDays, t, 0) {
        Some(s) => match in_count_at_pos(t, s, "day") {
            Some((_, n)) => {
                let v = digits_num(t, s + 3, n);
                Ok(Some(DateExpr::InNDays(v as i32)))
            },
            None => Ok(None),
        },
        None => Ok(None),
    }
}

fn parse_in_year(t: &Vec<char>) -> (r: Found)
    ensures
        r == full_date_in(t@),
{
    let tl = t.len();
    match find_from(Pattern::FullDate, t, 0) {
        Some(s) => match full_date_at_pos(t, s) {
            Some((_, ml, dl, yl)) => {
                let m = digits_num(t, s, ml);
                let d = digits_num(t, s + ml + 1, dl);
                let y = digits_num(t, s + ml + dl + 2, yl);
                match num_to_month(m) {
                    Some(mo) => Ok(Some(DateExpr::InYear(mo, d, y as i32))),
                    None => Err(DateParseError::DateBad),
                }
            },
            None => Ok(None),
        },
        None => Ok(None),
    }
}

fn parse_in_month(t: &Vec<char>) -> (r: Found)
    ensures
        r == numeric_date_in(t@),
{
    let tl = t.len();
    match find_from(Pattern::NumericDate, t, 0) {
        Some(s) => match numeric_date_at_pos(t, s) {
            Some((_, ml, dl)) => {
                let m = digits_num(t, s, ml);
                let d = digits_num(t, s + ml + 1, dl);
                match num_to_month(m) {
                    Some(mo) => Ok(Some(DateExpr::InMonth(mo, d))),
                    None => Err(DateParseError::DateBad),
                }
            },
            None => Ok(None),
        },
        None => Ok(None),
    }
}

fn parse_month_date_english(t: &Vec<char>) -> (r: Found)
    ensures
        r == month_day_in(t@),
{
    let tl = t.len();
    match find_from(Pattern::MonthDate, t, 0) {
        Some(s) => match month_date_at_pos(t, s) {
            Some((_, k, d, dl)) => {
                if dl == 0 {
                    Ok(None)
                } else {
                    let v = digits_num(t, d, dl);
                    Ok(Some(DateExpr::InMonth(stem_month_of(k), v)))
                }
            },
            None => Ok(None),
        },
        None => Ok(None),
    }
}

fn parse_date_in_week(text: &str, t: &Vec<char>) -> (r: Found)
    requires
        t@ == text@,
    ensures
        r == qualified_day_in(t@),
{
    let tl = t.len();
    match find_from(Pattern::QualifiedWord, t, 0) {
        Some(s) => match qualified_word_at_pos(t, s) {
            Some((_, j, ws, wl)) => {
                let word = text.substring_char(ws, ws + wl);
                match weekday_from_name(word) {
                    Some(d) => Ok(Some(DateExpr::DayInNWeeks(qualifier_offset_of(j), d))),
                    None => Ok(None),
                }
            },
            None => Ok(None),
        },
        None => Ok(None),
    }
}

fn parse_in_n_months(t: &Vec<char>) -> (r: Found)
    ensures
        r == relative_months_in(t@),
{
    let tl = t.len();
    match find_from(Pattern::InMonths, t, 0) {
        Some(s) => match in_count_at_pos(t, s, "month") {
            Some((_, n)) => {
                let v = digits_num(t, s + 3, n);
                Ok(Some(DateExpr::InNMonths(v as i32)))
            },
            None => Ok(None),
        },
        None => Ok(None),
    }
}

fn parse_relative_month(t: &Vec<char>) -> (r: Found)
    ensures
        r == qualified_month_in(t@),
{
    let tl = t.len();
    match find_from(Pattern::QualifiedMonth, t, 0) {
        Some(s) => match qualified_month_at_pos(t, s) {
            Some((j, _)) => Ok(Some(DateExpr::InNMonths(qualifier_offset_of(j) as i32))),
            None => Ok(None),
        },
        None => Ok(None),
    }
}

fn parse_day_alone(t: &Vec<char>) -> (r: Found)
    ensures
        r == day_alone_in(t@),
{
    let tl = t.len();
    match find_from(Pattern::DayName, t, 0) {
        Some(s) => match day_from_pos(t, s, Table::DayStem) {
            Some((k, _)) => Ok(Some(DateExpr::DayInNWeeks(0, stem_day_of(k)))),
            None => Ok(None),
        },
        None => Ok(None),
    }
}

impl Recognizable for DateExpr {
    type Error = DateParseError;

    fn recognize(text: &str) -> (r: Result<Option<DateExpr>, DateParseError>)
        ensures
            r == date_recognized(text@),
    {
        let t = chars_of(text);
        let mut bad = false;
        let a = parse_keywords(&t);
        if let Ok(Some(x)) = a {
            return Ok(Some(x));
        }
        bad = bad || matches!(a, Err(_));
        let b = parse_relative_date(&t);
        if let Ok(Some(x)) = b {
            return Ok(Some(x));
        }
        bad = bad || matches!(b, Err(_));
        let c = parse_in_year(&t);
        if let Ok(Some(x)) = c {
            return Ok(Some(x));
        }
        bad = bad || matches!(c, Err(_));
        let d = parse_in_month(&t);
        if let Ok(Some(x)) = d {
            return Ok(Some(x));
        }
        bad = bad || matches!(d, Err(_));
        let e = parse_month_date_english(&t);
        if let Ok(Some(x)) = e {
            return Ok(Some(x));
        }
        bad = bad || matches!(e, Err(_));
        let f = parse_date_in_week(text, &t);
        if let Ok(Some(x)) = f {
            return Ok(Some(x));
        }
        bad = bad || matches!(f, Err(_));
        let g = parse_in_n_months(&t);
        if let Ok(Some(x)) = g {
            return Ok(Some(x));
        }
        bad = bad || matches!(g, Err(_));
        let h = parse_relative_month(&t);
        if let Ok(Some(x)) = h {
            return Ok(Some(x));
        }
        bad = bad || matches!(h, Err(_));
        let i = parse_day_alone(&t);
        if let Ok(Some(x)) = i {
            return Ok(Some(x));
        }
        bad = bad || matches!(i, Err(_));
        if bad {
            Err(DateParseError::DateBad)
        } else {
            Ok(None)
        }
    }

    fn describe() -> &'static str {
        "date"
    }
}

/// The date `n` months after `now`, rolling over into earlier or later
/// years, on the same day of the month or, where that month is shorter, on
/// its last day.
pub open spec fn months_later(now: Date, n: int) -> Result<Date, DateParseError> {
    let k = now.month - 1 + n;
    let y = now.year + k / 12;
    let m = k % 12 + 1;
    if MIN_YEAR <= y <= MAX_YEAR {
        let dim = days_in_month(y, m);
        Ok(
            Date {
                year: y as i32,
                month: m as u32,
                day: (if now.day <= dim {
                    now.day as int
                } else {
                    dim
                }) as u32,
            },
        )
    } else {
        Err(DateParseError::DateBad)
    }
}

/// Days forward from weekday `from` to weekday `to` within a week (0 to 6).
pub open spec fn days_forward(from: int, to: int) -> int {
    if to - from < 0 {
        to - from + 7
    } else {
        to - from
    }
}

/// The date that `expr` names, with `now` as the reference date; `DateBad`
/// where that is no supported date.
pub open spec fn resolved(expr: DateExpr, now: Date) -> Result<Date, DateParseError> {
    let shifted = |n: int|
        match add_days_spec(now, n) {
            Some(d) => Ok(d),
            None => Err(DateParseError::DateBad),
        };
    match expr {
        DateExpr::InNDays(n) => shifted(n as int),
        DateExpr::DayInNWeeks(w, day) => shifted(
            days_forward(weekday_index(now), day.index()) + 7 * w,
        ),
        DateExpr::InNMonths(n) => months_later(now, n as int),
        DateExpr::InMonth(m, d) => {
            let c = Date { year: now.year, month: m.number() as u32, day: d };
            if c.wf() {
                Ok(c)
            } else {
                Err(DateParseError::DateBad)
            }
        },
        DateExpr::InYear(m, d, y) => {
            let c = Date { year: y, month: m.number() as u32, day: d };
            if c.wf() {
                Ok(c)
            } else {
                Err(DateParseError::DateBad)
            }
        },
    }
}

fn days_in_month_of(y: i32, m: u32) -> (r: u32)
    ensures
        r == days_in_month(y as int, m as int),
{
    if m == 2 {
        if (y % 4 == 0 && y % 100 != 0) || y % 400 == 0 {
            29
        } else {
            28
        }
    } else if m == 4 || m == 6 || m == 9 || m == 11 {
        30
    } else {
        31
    }
}

proof fn lemma_day_numbers_bounded(d: Date)
    requires
        d.wf(),
    ensures
        -100_000_000 < day_number(d) < 100_000_000,
{
    lemma_date_numbered(d);
    assert(day_number(crate::calendar::first_date()) > -100_000_000);
    assert(day_number(crate::calendar::last_date()) < 100_000_000);
}

fn shift_or_bad(now: Date, n: i64) -> (r: Result<Date, DateParseError>)
    requires
        now.wf(),
    ensures
        r == (match add_days_spec(now, n as int) {
            Some(d) => Ok(d),
            None => Err(DateParseError::DateBad),
        }),
        r matches Ok(d) ==> d.wf() && day_number(d) == day_number(now) + n,
        r is Err <==> !in_range(day_number(now) + n),
{
    if n < -1_000_000_000 || n > 1_000_000_000 {
        proof {
            lemma_day_numbers_bounded(now);
            assert(!in_range(day_number(now) + n)) by {
                assert(day_number(crate::calendar::first_date()) > -100_000_000);
                assert(day_number(crate::calendar::last_date()) < 100_000_000);
            }
        }
        return Err(DateParseError::DateBad);
    }
    match shift_days(now, n) {
        Some(d) => Ok(d),
        None => Err(DateParseError::DateBad),
    }
}

/// Resolves a date expression against the reference date `now`.
pub fn resolve_date(expr: DateExpr, now: Date) -> (r: Result<Date, DateParseError>)
    requires
        now.wf(),
    ensures
        r == resolved(expr, now),
        r matches Ok(d) ==> d.wf(),
        expr matches DateExpr::InNDays(n) ==> (r matches Ok(d) ==> day_number(d) == day_number(
            now,
        ) + n),
        expr matches DateExpr::DayInNWeeks(w, day) ==> (r matches Ok(d) ==> day_number(d)
            == day_number(now) + days_forward(weekday_index(now), day.index()) + 7 * w),
{
    match expr {
        DateExpr::InNDays(n) => shift_or_bad(now, n as i64),
        DateExpr::DayInNWeeks(w, day) => {
            let from = weekday_of(now).num_days_from_sunday() as i64;
            let to = day.num_days_from_sunday() as i64;
            let mut difference: i64 = to - from;
            if difference < 0 {
                difference = difference + 7;
            }
            difference = difference + 7 * (w as i64);
            shift_or_bad(now, difference)
        },
        DateExpr::InNMonths(n) => {
            let k: i64 = (now.month as i64) - 1 + (n as i64);
            let q: i64;
            let m0: i64;
            if k >= 0 {
                q = k / 12;
                m0 = k % 12;
                proof {
                    lemma_fundamental_div_mod(k as int, 12);
                    lemma_mod_bound(k as int, 12);
                }
            } else {
                let a: i64 = -k;
                let c: i64 = (a + 11) / 12;
                q = -c;
                m0 = k + 12 * c;
                proof {
                    lemma_fundamental_div_mod(a + 11, 12);
                    lemma_mod_bound(a + 11, 12);
                    assert(0 <= m0 < 12);
                    lemma_fundamental_div_mod_converse(k as int, 12, q as int, m0 as int);
                }
            }
            let y: i64 = (now.year as i64) + q;
            if y < MIN_YEAR as i64 || y > MAX_YEAR as i64 {
                return Err(DateParseError::DateBad);
            }
            let m: u32 = (m0 + 1) as u32;
            let dim = days_in_month_of(y as i32, m);
            let day = if now.day <= dim {
                now.day
            } else {
                dim
            };
            Ok(Date { year: y as i32, month: m, day })
        },
        DateExpr::InMonth(m, d) => match date_from_ymd(now.year, m.to_num(), d) {
            Some(c) => Ok(c),
            None => Err(DateParseError::DateBad),
        },
        DateExpr::InYear(m, d, y) => match date_from_ymd(y, m.to_num(), d) {
            Some(c) => Ok(c),
            None => Err(DateParseError::DateBad),
        },
    }
}

/// The date that a text names, with `now` as the reference date: the
/// recognized expression resolved, or nothing where none is recognized or
/// it names no supported date.
#[verifier::opaque]
pub open spec fn date_parsed(t: Seq<char>, now: Date) -> Option<Date> {
    match date_recognized(t) {
        Ok(Some(e)) => match resolved(e, now) {
            Ok(d) => Some(d),
            Err(_) => None,
        },
        _ => None,
    }
}

/// Parses dates from text.
pub struct DateParser {}

impl DateParser {
    /// The date that `text` names, relative to today's date in UTC.
    pub fn parse(text: &str) -> (r: Option<Date>)
        ensures
            exists|now: Date| now.wf() && r == date_parsed(text@, now),
    {
        let now = crate::calendar::utc_now();
        DateParser::parse_relative(text, now.date)
    }

    /// The date that `text` names, relative to the date `now`.
    pub fn parse_relative(text: &str, now: Date) -> (r: Option<Date>)
        requires
            now.wf(),
        ensures
            r == date_parsed(text@, now),
            r matches Some(d) ==> d.wf(),
    {
        proof {
            reveal(date_parsed);
        }
        match DateParser::parse_checked(text, now) {
            Ok(d) => Some(d),
            Err(_) => None,
        }
    }

    /// The date that `text` names, relative to the date `now`, or why there
    /// is none: `DateUnknown` where nothing reads as a date, `DateBad` where
    /// what does names no supported date.
    pub fn parse_checked(text: &str, now: Date) -> (r: Result<Date, DateParseError>)
        requires
            now.wf(),
        ensures
            r matches Ok(d) ==> d.wf(),
            match date_recognized(text@) {
                Ok(Some(e)) => r == resolved(e, now),
                Ok(None) => r == Err::<Date, DateParseError>(DateParseError::DateUnknown),
                Err(e) => r == Err::<Date, DateParseError>(e),
            },
    {
        match DateExpr::recognize(text) {
            Ok(Some(e)) => resolve_date(e, now),
            Ok(None) => Err(DateParseError::DateUnknown),
            Err(e) => Err(e),
        }
    }
}

/// The month that a text names: the first month name or three-letter stem,
/// in any case, followed by a month ending or a word boundary.
pub open spec fn month_recognized(t: Seq<char>) -> Option<MonthOfYear> {
    match first_match(Pattern::MonthName, t, 0) {
        Some(s) => match month_from(t, s, 0, false) {
            Some((k, e)) => Some(stem_month(k)),
            None => None,
        },
        None => None,
    }
}

impl Recognizable for MonthOfYear {
    type Error = DateParseError;

    fn recognize(text: &str) -> (r: Result<Option<MonthOfYear>, DateParseError>)
        ensures
            r == Ok::<Option<MonthOfYear>, DateParseError>(month_recognized(text@)),
    {
        let t = chars_of(text);
        let tl = t.len();
        match find_from(Pattern::MonthName, &t, 0) {
            Some(s) => match month_from_pos(&t, s, false) {
                Some((k, _)) => Ok(Some(stem_month_of(k))),
                None => Ok(None),
            },
            None => Ok(None),
        }
    }

    fn describe() -> &'static str {
        "month of year"
    }
}

/// The weekday that a text names: the first weekday stem, in any case, with
/// an optional ending, as a whole word.
pub open spec fn weekday_recognized(t: Seq<char>) -> Option<DayOfWeek> {
    match first_match(Pattern::DayName, t, 0) {
        Some(s) => match day_from(t, s, Table::DayStem, 0) {
            Some((k, e)) => Some(stem_day(k)),
            None => None,
        },
        None => None,
    }
}

impl Recognizable for DayOfWeek {
    type Error = DateParseError;

    fn recognize(text: &str) -> (r: Result<Option<DayOfWeek>, DateParseError>)
        ensures
            r == Ok::<Option<DayOfWeek>, DateParseError>(weekday_recognized(text@)),
    {
        let t = chars_of(text);
        let tl = t.len();
        match find_from(Pattern::DayName, &t, 0) {
            Some(s) => match day_from_pos(&t, s, Table::DayStem) {
                Some((k, _)) => Ok(Some(stem_day_of(k))),
                None => Ok(None),
            },
            None => Ok(None),
        }
    }

    fn describe() -> &'static str {
        "day of week"
    }
}

/// Resolving "in zero days" gives the reference date itself, and resolving
/// "in one day" gives the day after it, across the ends of months and years
/// (for every date but the last supported one, which has no day after it).
pub proof fn law_day_offsets(d: Date)
    requires
        d.wf(),
    ensures
        resolved(DateExpr::InNDays(0), d) == Ok::<Date, DateParseError>(d),
        d != last_date() ==> resolved(DateExpr::InNDays(1), d) == Ok::<Date, DateParseError>(
            next_day(d),
        ),
{
    lemma_date_numbered(d);
    if d != last_date() {
        lemma_next_day(d);
        lemma_date_numbered(next_day(d));
    }
}

/// With a Wednesday as the reference date, next Thursday is eight days later
/// and this Wednesday is the reference date itself.
pub proof fn law_weekday_offsets(d: Date)
    requires
        d.wf(),
        weekday_index(d) == DayOfWeek::Wed.index(),
    ensures
        resolved(DateExpr::DayInNWeeks(1, DayOfWeek::Thu), d) == (match add_days_spec(d, 8) {
            Some(x) => Ok::<Date, DateParseError>(x),
            None => Err(DateParseError::DateBad),
        }),
        in_range(day_number(d) + 8) ==> resolved(DateExpr::DayInNWeeks(1, DayOfWeek::Thu), d)
            == Ok::<Date, DateParseError>(date_numbered(day_number(d) + 8)),
        resolved(DateExpr::DayInNWeeks(0, DayOfWeek::Wed), d) == Ok::<Date, DateParseError>(d),
{
    lemma_date_numbered(d);
}

} // verus!
