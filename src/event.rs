//! Composing an event from text: its start and end, or the days it spans,
//! and its summary, the text left once every date and time phrase is gone.
use crate::calendar::{add_hour, hour_later, Date, DateTime, TimeOfDay};
use crate::date_parse::{date_parsed, DateParser};
use crate::patterns::{split_at, split_at_pos};
use crate::search::{
    find_from, first_match, remove_all, remove_matches, string_of, trim, trimmed, Pattern,
};
use crate::text::chars_of;
use crate::time_parse::{time_parsed, TimeParser};
use vstd::prelude::*;

verus! {

/// The start and end of an event as found in its text.
#[derive(Debug, Clone, Copy, PartialEq, Eq, Structural)]
pub enum EventStartAndEndExpr {
    /// Neither a date nor a time.
    Unknown,
    /// A start time only.
    Starts(TimeOfDay),
    /// A start and an end time.
    StartsAndEnds(TimeOfDay, TimeOfDay),
    /// A start time and a date.
    StartsWithDate(TimeOfDay, Date),
    /// A start time, an end time and a date.
    StartsAndEndsWithDate(TimeOfDay, TimeOfDay, Date),
    /// A date only: the whole day.
    AllDay(Date),
    /// A first and a last date: whole days.
    AllDayStartsAndEnds(Date, Date),
}

impl EventStartAndEndExpr {
    /// Every date and time in it exists.
    pub open spec fn wf(self) -> bool {
        match self {
            EventStartAndEndExpr::Unknown => true,
            EventStartAndEndExpr::Starts(a) => a.wf(),
            EventStartAndEndExpr::StartsAndEnds(a, b) => a.wf() && b.wf(),
            EventStartAndEndExpr::StartsWithDate(a, d) => a.wf() && d.wf(),
            EventStartAndEndExpr::StartsAndEndsWithDate(a, b, d) => a.wf() && b.wf() && d.wf(),
            EventStartAndEndExpr::AllDay(d) => d.wf(),
            EventStartAndEndExpr::AllDayStartsAndEnds(a, b) => a.wf() && b.wf(),
        }
    }
}

/// Where the text splits into a start and an end around a hyphen or `to`:
/// (start of the first part, its length, start of the second, its length).
pub open spec fn split_of(t: Seq<char>) -> Option<(int, int, int, int)> {
    match first_match(Pattern::Split, t, 0) {
        Some(i) => match split_at(t, i) {
            Some((l, s, n)) => Some((i, l, s, n)),
            None => None,
        },
        None => None,
    }
}

/// A start time found in the whole text, with the date found there if any;
/// else a date alone; else nothing.
pub open spec fn single_of(t: Seq<char>, now: DateTime) -> EventStartAndEndExpr {
    match time_parsed(t, now.time) {
        Some(st) => match date_parsed(t, now.date) {
            Some(d) => EventStartAndEndExpr::StartsWithDate(st, d),
            None => EventStartAndEndExpr::Starts(st),
        },
        None => match date_parsed(t, now.date) {
            Some(d) => EventStartAndEndExpr::AllDay(d),
            None => EventStartAndEndExpr::Unknown,
        },
    }
}

/// The start and end that a text gives, relative to `now`. Where the text
/// splits around a separator and both parts name times, those are the start
/// and end (on the date that the whole text names, if any); where both name
/// dates instead, the event spans those days; otherwise the whole text is read
/// for a single start time and date.
pub open spec fn start_end_of(t: Seq<char>, now: DateTime) -> EventStartAndEndExpr {
    match split_of(t) {
        Some((i, l, s, n)) => {
            let a = t.subrange(i, i + l);
            let b = t.subrange(s, s + n);
            match (time_parsed(a, now.time), time_parsed(b, now.time)) {
                (Some(ta), Some(tb)) => match date_parsed(t, now.date) {
                    Some(d) => EventStartAndEndExpr::StartsAndEndsWithDate(ta, tb, d),
                    None => EventStartAndEndExpr::StartsAndEnds(ta, tb),
                },
                _ => match (date_parsed(a, now.date), date_parsed(b, now.date)) {
                    (Some(da), Some(db)) => EventStartAndEndExpr::AllDayStartsAndEnds(da, db),
                    _ => single_of(t, now),
                },
            }
        },
        None => single_of(t, now),
    }
}

fn single_expr(text: &str, now: DateTime) -> (r: EventStartAndEndExpr)
    requires
        now.wf(),
    ensures
        r == single_of(text@, now),
        r.wf(),
{
    match TimeParser::parse_relative(text, now.time) {
        Some(st) => match DateParser::parse_relative(text, now.date) {
            Some(d) => EventStartAndEndExpr::StartsWithDate(st, d),
            None => EventStartAndEndExpr::Starts(st),
        },
        None => match DateParser::parse_relative(text, now.date) {
            Some(d) => EventStartAndEndExpr::AllDay(d),
            None => EventStartAndEndExpr::Unknown,
        },
    }
}

/// Finds the start and end of an event in `text`, relative to `now`.
pub fn to_start_end_expr(text: &str, now: DateTime) -> (r: EventStartAndEndExpr)
    requires
        now.wf(),
    ensures
        r == start_end_of(text@, now),
        r.wf(),
{
    let t = chars_of(text);
    let tl = t.len();
    match find_from(Pattern::Split, &t, 0) {
        Some(i) => match split_at_pos(&t, i) {
            Some((l, s, n)) => {
                let a = text.substring_char(i, i + l);
                let b = text.substring_char(s, s + n);
                match (
                    TimeParser::parse_relative(a, now.time),
                    TimeParser::parse_relative(b, now.time),
                ) {
                    (Some(ta), Some(tb)) => {
                        return match DateParser::parse_relative(text, now.date) {
                            Some(d) => EventStartAndEndExpr::StartsAndEndsWithDate(ta, tb, d),
                            None => EventStartAndEndExpr::StartsAndEnds(ta, tb),
                        };
                    },
                    _ => {},
                }
                match (
                    DateParser::parse_relative(a, now.date),
                    DateParser::parse_relative(b, now.date),
                ) {
                    (Some(da), Some(db)) => {
                        return EventStartAndEndExpr::AllDayStartsAndEnds(da, db);
                    },
                    _ => {},
                }
                single_expr(text, now)
            },
            None => single_expr(text, now),
        },
        None => single_expr(text, now),
    }
}

/// The patterns that a summary drops, in the order they are taken out: the
/// relative counts, calendar keywords and casual times that the recognizers
/// read, then numeric dates, clock times, month dates, weekday names,
/// qualified words, connecting words and hyphens.
pub open spec fn summary_patterns() -> Seq<Pattern> {
    seq![
        Pattern::InDays,
        Pattern::InMonths,
        Pattern::InMinutes,
        Pattern::InHours,
        Pattern::Keyword,
        Pattern::Casual(0),
        Pattern::Casual(1),
        Pattern::Casual(2),
        Pattern::Casual(3),
        Pattern::Casual(4),
        Pattern::Casual(5),
        Pattern::NumericDate,
        Pattern::FullDate,
        Pattern::Clock,
        Pattern::MonthDate,
        Pattern::DayNameLong,
        Pattern::DayName,
        Pattern::QualifiedWord,
        Pattern::Connective,
        Pattern::Hyphen,
    ]
}

/// The text with the matches of each pattern of `ps` taken out in turn, each
/// pattern over what the one before left.
pub open spec fn remove_each(ps: Seq<Pattern>, t: Seq<char>) -> Seq<char>
    decreases ps.len(),
{
    if ps.len() == 0 {
        t
    } else {
        remove_each(ps.drop_first(), remove_all(ps[0], t, 0))
    }
}

/// The summary of a text: the text with every date and time phrase taken
/// out, then white space trimmed at both ends.
pub open spec fn summary_of(t: Seq<char>) -> Seq<char> {
    trim(remove_each(summary_patterns(), t))
}

fn summary_pattern_list() -> (r: Vec<Pattern>)
    ensures
        r@ == summary_patterns(),
{
    let mut r: Vec<Pattern> = Vec::new();
    r.push(Pattern::InDays);
    r.push(Pattern::InMonths);
    r.push(Pattern::InMinutes);
    r.push(Pattern::InHours);
    r.push(Pattern::Keyword);
    r.push(Pattern::Casual(0));
    r.push(Pattern::Casual(1));
    r.push(Pattern::Casual(2));
    r.push(Pattern::Casual(3));
    r.push(Pattern::Casual(4));
    r.push(Pattern::Casual(5));
    r.push(Pattern::NumericDate);
    r.push(Pattern::FullDate);
    r.push(Pattern::Clock);
    r.push(Pattern::MonthDate);
    r.push(Pattern::DayNameLong);
    r.push(Pattern::DayName);
    r.push(Pattern::QualifiedWord);
    r.push(Pattern::Connective);
    r.push(Pattern::Hyphen);
    assert(r@ =~= summary_patterns());
    r
}

/// The summary of an event's text; it may be empty.
pub fn summary(text: &str) -> (r: Option<String>)
    ensures
        r matches Some(s) && s@ == summary_of(text@),
{
    let ps = summary_pattern_list();
    let mut cur = chars_of(text);
    let n = ps.len();
    let mut k: usize = 0;
    assert(ps@.subrange(0, n as int) =~= ps@);
    while k < n
        invariant
            n == ps@.len(),
            k <= n,
            remove_each(ps@.subrange(k as int, n as int), cur@) == remove_each(
                summary_patterns(),
                text@,
            ),
        decreases n - k,
    {
        assert(ps@.subrange(k as int, n as int).drop_first() =~= ps@.subrange(k + 1, n as int));
        let next = remove_matches(ps[k], &cur);
        cur = next;
        k = k + 1;
    }
    assert(ps@.subrange(n as int, n as int) =~= Seq::<Pattern>::empty());
    let cleaned = trimmed(&cur);
    Some(string_of(&cleaned))
}

/// When an event takes place.
#[derive(Debug, Clone, Copy, PartialEq, Eq, Structural)]
pub enum EventTiming {
    /// From a start instant to an end instant; the end is absent only where
    /// the hour after the start lies past the last supported date.
    Timed { start: DateTime, end: Option<DateTime> },
    /// Whole days, from the first to the last (the same day for one).
    AllDay { first: Date, last: Date },
}

/// An event found in text.
#[derive(Debug, Clone)]
pub struct EventSpan {
    pub timing: EventTiming,
    pub summary: String,
}

/// When the event that a text describes takes place, relative to `now`:
/// without a date it is on `now`'s date; without an end time it ends one
/// hour after it starts; with neither date nor time it is the whole day of
/// `now`.
pub open spec fn timing_of(t: Seq<char>, now: DateTime) -> EventTiming {
    match start_end_of(t, now) {
        EventStartAndEndExpr::Unknown => EventTiming::AllDay { first: now.date, last: now.date },
        EventStartAndEndExpr::Starts(st) => {
            let start = DateTime { date: now.date, time: st };
            EventTiming::Timed { start, end: hour_later(start) }
        },
        EventStartAndEndExpr::StartsAndEnds(a, b) => EventTiming::Timed {
            start: DateTime { date: now.date, time: a },
            end: Some(DateTime { date: now.date, time: b }),
        },
        EventStartAndEndExpr::StartsWithDate(st, d) => {
            let start = DateTime { date: d, time: st };
            EventTiming::Timed { start, end: hour_later(start) }
        },
        EventStartAndEndExpr::StartsAndEndsWithDate(a, b, d) => EventTiming::Timed {
            start: DateTime { date: d, time: a },
            end: Some(DateTime { date: d, time: b }),
        },
        EventStartAndEndExpr::AllDay(d) => EventTiming::AllDay { first: d, last: d },
        EventStartAndEndExpr::AllDayStartsAndEnds(a, b) => EventTiming::AllDay {
            first: a,
            last: b,
        },
    }
}

/// Reads an event from `text`, relative to the instant `now`.
pub fn build_event_span(text: &str, now: DateTime) -> (r: EventSpan)
    requires
        now.wf(),
    ensures
        r.timing == timing_of(text@, now),
        r.summary@ == summary_of(text@),
{
    let expr = to_start_end_expr(text, now);
    let timing = match expr {
        EventStartAndEndExpr::Unknown => EventTiming::AllDay { first: now.date, last: now.date },
        EventStartAndEndExpr::Starts(st) => {
            let start = DateTime { date: now.date, time: st };
            EventTiming::Timed { start, end: add_hour(start) }
        },
        EventStartAndEndExpr::StartsAndEnds(a, b) => EventTiming::Timed {
            start: DateTime { date: now.date, time: a },
            end: Some(DateTime { date: now.date, time: b }),
        },
        EventStartAndEndExpr::StartsWithDate(st, d) => {
            let start = DateTime { date: d, time: st };
            EventTiming::Timed { start, end: add_hour(start) }
        },
        EventStartAndEndExpr::StartsAndEndsWithDate(a, b, d) => EventTiming::Timed {
            start: DateTime { date: d, time: a },
            end: Some(DateTime { date: d, time: b }),
        },
        EventStartAndEndExpr::AllDay(d) => EventTiming::AllDay { first: d, last: d },
        EventStartAndEndExpr::AllDayStartsAndEnds(a, b) => EventTiming::AllDay {
            first: a,
            last: b,
        },
    };
    let s = match summary(text) {
        Some(s) => s,
        None => String::new(),
    };
    EventSpan { timing, summary: s }
}

} // verus!
