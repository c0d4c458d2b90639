//! Recognizing times of day in text and resolving them against a reference time.
use crate::calendar::{add_minutes_wrapping, time_at_minute, TimeOfDay};
use crate::date_parse::or_else;
use crate::grammar::Table;
use crate::patterns::{clock_at, clock_at_pos, in_units_at, in_units_at_pos};
use crate::recognizable::Recognizable;
use crate::search::{find_from, first_match, remove_all, remove_matches, Pattern};
use crate::text::{chars_of, digits_num, digits_value, eq_ci, eq_ci_char};
use vstd::prelude::*;

verus! {

/// Why no time came out of a text.
#[derive(Debug, Clone, Copy, PartialEq, Eq, Structural)]
pub enum TimeParseError {
    /// Nothing in the text reads as a time.
    TimeUnknown,
    /// Something reads as a time but names none, e.g. 25:00.
    TimeBad,
}

impl TimeParseError {
    /// A message for the error.
    pub fn message(&self) -> &'static str {
        match self {
            TimeParseError::TimeUnknown => "Error: Time unknown",
            TimeParseError::TimeBad => "Error: Time bad format",
        }
    }
}

/// A time of day as the text states it.
#[derive(Debug, Clone, Copy, PartialEq, Eq, Structural)]
pub enum TimeExpr {
    /// A clock time: hour and minute.
    Absolute(u32, u32),
    /// `n` hours after the reference time.
    InNHours(u32),
    /// `n` minutes after the reference time.
    InNMins(u32),
}

/// The outcome of one time pattern.
pub type TimeFound = Result<Option<TimeExpr>, TimeParseError>;

/// `in N minutes`, in one of its spellings.
pub open spec fn relative_minutes_in(t: Seq<char>) -> TimeFound {
    match first_match(Pattern::InMinutes, t, 0) {
        Some(s) => match in_units_at(t, s, Table::MinuteUnit) {
            Some((e, n)) => Ok(Some(TimeExpr::InNMins(digits_value(t, s + 3, n as nat) as u32))),
            None => Ok(None),
        },
        None => Ok(None),
    }
}

/// `in N hours`, in one of its spellings.
pub open spec fn relative_hours_in(t: Seq<char>) -> TimeFound {
    match first_match(Pattern::InHours, t, 0) {
        Some(s) => match in_units_at(t, s, Table::HourUnit) {
            Some((e, n)) => Ok(Some(TimeExpr::InNHours(digits_value(t, s + 3, n as nat) as u32))),
            None => Ok(None),
        },
        None => Ok(None),
    }
}

/// The hour on a 24-hour clock: a meridiem `p` adds 12 unless the hour is 12;
/// without a meridiem, hours before 9 are taken as afternoon.
pub open spec fn day_hour(hour: int, meridiem: bool, pm: bool) -> int {
    if meridiem {
        if pm && hour != 12 {
            hour + 12
        } else {
            hour
        }
    } else if hour < 9 {
        hour + 12
    } else {
        hour
    }
}

/// A clock time in the text once numeric dates (`M/D`) are taken out; an
/// hour past 23 or a minute past 59 is malformed.
pub open spec fn clock_in(t: Seq<char>) -> TimeFound {
    let u = remove_all(Pattern::NumericDate, t, 0);
    match first_match(Pattern::Clock, u, 0) {
        Some(s) => match clock_at(u, s) {
            Some((e, hl, c, ml, m)) => clock_value(u, s, e, hl, c, ml, m),
            None => Ok(None),
        },
        None => Ok(None),
    }
}

/// The time of a clock time matched at `s`; an hour past 23 or a minute past
/// 59 is malformed.
pub open spec fn clock_value(u: Seq<char>, s: int, e: int, hl: int, c: int, ml: int, m: int) -> TimeFound {
    let hour = day_hour(digits_value(u, s, hl as nat), m > 0, m > 0 && eq_ci(u[e - m], 'p'));
    let minute = if ml == 2 {
        digits_value(u, s + hl + c, 2)
    } else {
        0
    };
    if hour < 24 && minute < 60 {
        Ok(Some(TimeExpr::Absolute(hour as u32, minute as u32)))
    } else {
        Err(TimeParseError::TimeBad)
    }
}

/// The hour that casual phrase `j` stands for.
pub open spec fn casual_hour(j: int) -> int {
    if j == 0 {
        9
    } else if j == 1 {
        14
    } else if j == 2 {
        18
    } else if j == 3 {
        21
    } else if j == 4 {
        12
    } else {
        0
    }
}

fn casual_hour_of(j: usize) -> (r: u32)
    ensures
        r == casual_hour(j as int),
{
    if j == 0 {
        9
    } else if j == 1 {
        14
    } else if j == 2 {
        18
    } else if j == 3 {
        21
    } else if j == 4 {
        12
    } else {
        0
    }
}

/// The first casual phrase, from entry `j` on, that occurs in the text.
pub open spec fn casual_from(t: Seq<char>, j: int) -> Option<int>
    decreases 6 - j,
{
    if j < 0 || j >= 6 {
        None
    } else if first_match(Pattern::Casual(j as usize), t, 0) is Some {
        Some(j)
    } else {
        casual_from(t, j + 1)
    }
}

/// A casual phrase of time (morning, afternoon, evening, tonight, noon,
/// midnight, tried in that order) anywhere in the text.
pub open spec fn casual_in(t: Seq<char>) -> TimeFound {
    match casual_from(t, 0) {
        Some(j) => Ok(Some(TimeExpr::Absolute(casual_hour(j) as u32, 0))),
        None => Ok(None),
    }
}

/// The time expression of a text: relative minutes, relative hours, a clock
/// time, then a casual phrase; the first that finds one wins.
pub open spec fn time_recognized(t: Seq<char>) -> TimeFound {
    or_else(
        relative_minutes_in(t),
        or_else(relative_hours_in(t), or_else(clock_in(t), casual_in(t))),
    )
}

fn parse_relative_minutes(t: &Vec<char>) -> (r: TimeFound)
    ensures
        r == relative_minutes_in(t@),
{
    let tl = t.len();
    match find_from(Pattern::InMinutes, t, 0) {
        Some(s) => match in_units_at_pos(t, s, Table::MinuteUnit) {
            Some((_, n)) => {
                let v = digits_num(t, s + 3, n);
                Ok(Some(TimeExpr::InNMins(v)))
            },
            None => Ok(None),
        },
        None => Ok(None),
    }
}

fn parse_relative_hours(t: &Vec<char>) -> (r: TimeFound)
    ensures
        r == relative_hours_in(t@),
{
    let tl = t.len();
    match find_from(Pattern::InHours, t, 0) {
        Some(s) => match in_units_at_pos(t, s, Table::HourUnit) {
            Some((_, n)) => {
                let v = digits_num(t, s + 3, n);
                Ok(Some(TimeExpr::InNHours(v)))
            },
            None => Ok(None),
        },
        None => Ok(None),
    }
}

fn clock_value_of(u: &Vec<char>, s: usize, e: usize, hl: usize, c: usize, ml: usize, m: usize) -> (r: TimeFound)
    requires
        clock_at(u@, s as int) == Some((e as int, hl as int, c as int, ml as int, m as int)),
        s < e <= u@.len(),
        e == s + hl + c + ml + m,
        1 <= hl <= 2,
        ml == 0 || ml == 2,
        m == 0 || crate::patterns::ap_at(u@, e - m),
        forall|k: int| 0 <= k < hl ==> #[trigger] crate::text::digit_at(u@, s + k),
        forall|k: int| 0 <= k < ml ==> #[trigger] crate::text::digit_at(u@, s + hl + c + k),
    ensures
        r == clock_value(u@, s as int, e as int, hl as int, c as int, ml as int, m as int),
{
    let mut hour = digits_num(u, s, hl);
    let minute = if ml == 2 {
        digits_num(u, s + hl + c, 2)
    } else {
        0
    };
    assert(hour < 100) by {
        reveal_with_fuel(crate::text::pow10, 3);
    }
    assert(minute < 100) by {
        reveal_with_fuel(crate::text::pow10, 3);
    }
    if m > 0 {
        if eq_ci_char(u[e - m], 'p') && hour != 12 {
            hour = hour + 12;
        }
    } else if hour < 9 {
        hour = hour + 12;
    }
    if hour < 24 && minute < 60 {
        Ok(Some(TimeExpr::Absolute(hour, minute)))
    } else {
        Err(TimeParseError::TimeBad)
    }
}

fn parse_absolute_time(t: &Vec<char>) -> (r: TimeFound)
    ensures
        r == clock_in(t@),
{
    let u = remove_matches(Pattern::NumericDate, t);
    let ul = u.len();
    match find_from(Pattern::Clock, &u, 0) {
        Some(s) => match clock_at_pos(&u, s) {
            Some((e, hl, c, ml, m)) => clock_value_of(&u, s, e, hl, c, ml, m),
            None => Ok(None),
        },
        None => Ok(None),
    }
}

fn parse_casual_time(t: &Vec<char>) -> (r: TimeFound)
    ensures
        r == casual_in(t@),
{
    let tl = t.len();
    let mut j: usize = 0;
    while j < 6
        invariant
            tl == t@.len(),
            j <= 6,
            casual_from(t@, 0) == casual_from(t@, j as int),
        decreases 6 - j,
    {
        if find_from(Pattern::Casual(j), t, 0).is_some() {
            return Ok(Some(TimeExpr::Absolute(casual_hour_of(j), 0)));
        }
        j = j + 1;
    }
    Ok(None)
}

impl Recognizable for TimeExpr {
    type Error = TimeParseError;

    fn recognize(text: &str) -> (r: Result<Option<TimeExpr>, TimeParseError>)
        ensures
            r == time_recognized(text@),
    {
        let t = chars_of(text);
        let mut bad = false;
        let a = parse_relative_minutes(&t);
        if let Ok(Some(x)) = a {
            return Ok(Some(x));
        }
        let b = parse_relative_hours(&t);
        if let Ok(Some(x)) = b {
            return Ok(Some(x));
        }
        let c = parse_absolute_time(&t);
        if let Ok(Some(x)) = c {
            return Ok(Some(x));
        }
        bad = bad || matches!(c, Err(_));
        let d = parse_casual_time(&t);
        if let Ok(Some(x)) = d {
            return Ok(Some(x));
        }
        if bad {
            Err(TimeParseError::TimeBad)
        } else {
            Ok(None)
        }
    }

    fn describe() -> &'static str {
        "time of day"
    }
}

/// The clock time that `expr` names, with `now` as the reference time;
/// `TimeBad` for a clock time that does not exist.
pub open spec fn time_resolved(expr: TimeExpr, now: TimeOfDay) -> Result<TimeOfDay, TimeParseError> {
    match expr {
        TimeExpr::Absolute(h, m) => if h < 24 && m < 60 {
            Ok(TimeOfDay { hour: h, minute: m })
        } else {
            Err(TimeParseError::TimeBad)
        },
        TimeExpr::InNHours(n) => Ok(time_at_minute(now.minutes() + 60 * n)),
        TimeExpr::InNMins(n) => Ok(time_at_minute(now.minutes() + n)),
    }
}

/// Resolves a time expression against the reference time `now`; relative
/// times wrap around midnight.
pub fn resolve_time(expr: TimeExpr, now: TimeOfDay) -> (r: Result<TimeOfDay, TimeParseError>)
    requires
        now.wf(),
    ensures
        r == time_resolved(expr, now),
        r matches Ok(x) ==> x.wf(),
{
    match expr {
        TimeExpr::Absolute(h, m) => if h < 24 && m < 60 {
            Ok(TimeOfDay { hour: h, minute: m })
        } else {
            Err(TimeParseError::TimeBad)
        },
        TimeExpr::InNHours(n) => Ok(add_minutes_wrapping(now, (n as u64) * 60)),
        TimeExpr::InNMins(n) => Ok(add_minutes_wrapping(now, n as u64)),
    }
}

/// The clock time that a text names, with `now` as the reference time.
#[verifier::opaque]
pub open spec fn time_parsed(t: Seq<char>, now: TimeOfDay) -> Option<TimeOfDay> {
    match time_recognized(t) {
        Ok(Some(e)) => match time_resolved(e, now) {
            Ok(x) => Some(x),
            Err(_) => None,
        },
        _ => None,
    }
}

/// Parses times of day from text.
pub struct TimeParser {}

impl TimeParser {
    /// The clock time that `text` names, relative to the current UTC time.
    pub fn parse(text: &str) -> (r: Option<TimeOfDay>)
        ensures
            exists|now: TimeOfDay| now.wf() && r == time_parsed(text@, now),
    {
        let now = crate::calendar::utc_now();
        TimeParser::parse_relative(text, now.time)
    }

    /// The clock time that `text` names, relative to the time `now`.
    pub fn parse_relative(text: &str, now: TimeOfDay) -> (r: Option<TimeOfDay>)
        requires
            now.wf(),
        ensures
            r == time_parsed(text@, now),
            r matches Some(x) ==> x.wf(),
    {
        proof {
            reveal(time_parsed);
        }
        match TimeExpr::recognize(text) {
            Ok(Some(e)) => match resolve_time(e, now) {
                Ok(x) => Some(x),
                Err(_) => None,
            },
            _ => None,
        }
    }

    /// The clock time that `text` names, relative to the time `now`, or why
    /// there is none: `TimeUnknown` where nothing reads as a time, `TimeBad`
    /// where what does names no clock time.
    pub fn parse_checked(text: &str, now: TimeOfDay) -> (r: Result<TimeOfDay, TimeParseError>)
        requires
            now.wf(),
        ensures
            r matches Ok(x) ==> x.wf(),
            match time_recognized(text@) {
                Ok(Some(e)) => r == time_resolved(e, now),
                Ok(None) => r == Err::<TimeOfDay, TimeParseError>(TimeParseError::TimeUnknown),
                Err(e) => r == Err::<TimeOfDay, TimeParseError>(e),
            },
    {
        match TimeExpr::recognize(text) {
            Ok(Some(e)) => resolve_time(e, now),
            Ok(None) => Err(TimeParseError::TimeUnknown),
            Err(e) => Err(e),
        }
    }
}

/// Resolving a clock time gives that clock time, whatever the reference time.
pub proof fn law_absolute_unchanged(h: u32, m: u32, a: TimeOfDay, b: TimeOfDay)
    requires
        h < 24,
        m < 60,
    ensures
        time_resolved(TimeExpr::Absolute(h, m), a) == Ok::<TimeOfDay, TimeParseError>(
            TimeOfDay { hour: h, minute: m },
        ),
        time_resolved(TimeExpr::Absolute(h, m), a) == time_resolved(TimeExpr::Absolute(h, m), b),
{
}

} // verus!
