//! The word lists of the phrase grammar, and matching the first word of a
//! list, in the list's order, at a position of a text.
use crate::text::{at_boundary, boundary, lit_at, lit_at_pos, lit_ci_at, lit_ci_at_pos};
use vstd::prelude::*;

verus! {

/// Word lists that the patterns choose from, in the order they are tried.
#[derive(Debug, Clone, Copy, PartialEq, Eq, Structural)]
pub enum Table {
    /// today, tomorrow, yesterday
    Keyword,
    /// next, last, this
    Qualifier,
    /// month names and their three-letter stems
    MonthStem,
    /// endings that may follow a month stem
    MonthEnding,
    /// three-letter weekday stems
    DayStem,
    /// weekday stems as the summary cleaner writes them (`thurs`)
    DayStemLong,
    /// endings that may follow a weekday stem
    DayEnding,
    /// spellings of minutes
    MinuteUnit,
    /// spellings of hours
    HourUnit,
    /// casual times of day
    Casual,
    /// connecting and relative words that a summary drops
    Connective,
}

pub open spec fn table_len(tab: Table) -> int {
    match tab {
        Table::Keyword => 3,
        Table::Qualifier => 3,
        Table::MonthStem => 14,
        Table::MonthEnding => 10,
        Table::DayStem => 7,
        Table::DayStemLong => 7,
        Table::DayEnding => 6,
        Table::MinuteUnit => 4,
        Table::HourUnit => 4,
        Table::Casual => 6,
        Table::Connective => 14,
    }
}

pub open spec fn table_word(tab: Table, j: int) -> Seq<char> {
    match tab {
        Table::Keyword => if j == 0 {
            "today"@
        } else if j == 1 {
            "tomorrow"@
        } else {
            "yesterday"@
        },
        Table::Qualifier => if j == 0 {
            "next"@
        } else if j == 1 {
            "last"@
        } else {
            "this"@
        },
        Table::MonthStem => if j == 0 {
            "jan"@
        } else if j == 1 {
            "january"@
        } else if j == 2 {
            "feb"@
        } else if j == 3 || j == 4 {
            "mar"@
        } else if j == 5 {
            "apr"@
        } else if j == 6 {
            "may"@
        } else if j == 7 {
            "jun"@
        } else if j == 8 {
            "jul"@
        } else if j == 9 {
            "aug"@
        } else if j == 10 {
            "sep"@
        } else if j == 11 {
            "oct"@
        } else if j == 12 {
            "nov"@
        } else {
            "dec"@
        },
        Table::MonthEnding => if j == 0 {
            "ruary"@
        } else if j == 1 {
            "uary"@
        } else if j == 2 {
            "ch"@
        } else if j == 3 {
            "il"@
        } else if j == 4 {
            "e"@
        } else if j == 5 {
            "y"@
        } else if j == 6 {
            "ust"@
        } else if j == 7 {
            "tember"@
        } else if j == 8 {
            "ober"@
        } else {
            "ember"@
        },
        Table::DayStem => if j == 0 {
            "mon"@
        } else if j == 1 {
            "tue"@
        } else if j == 2 {
            "wed"@
        } else if j == 3 {
            "thu"@
        } else if j == 4 {
            "fri"@
        } else if j == 5 {
            "sat"@
        } else {
            "sun"@
        },
        Table::DayStemLong => if j == 0 {
            "mon"@
        } else if j == 1 {
            "tue"@
        } else if j == 2 {
            "wed"@
        } else if j == 3 {
            "thurs"@
        } else if j == 4 {
            "fri"@
        } else if j == 5 {
            "sat"@
        } else {
            "sun"@
        },
        Table::DayEnding => if j == 0 {
            "rday"@
        } else if j == 1 {
            "day"@
        } else if j == 2 {
            "rsday"@
        } else if j == 3 {
            "sday"@
        } else if j == 4 {
            "nesday"@
        } else {
            "urday"@
        },
        Table::MinuteUnit => if j == 0 {
            "mins"@
        } else if j == 1 {
            "minutes"@
        } else if j == 2 {
            "min"@
        } else {
            "minute"@
        },
        Table::HourUnit => if j == 0 {
            "hrs"@
        } else if j == 1 {
            "hours"@
        } else if j == 2 {
            "hr"@
        } else {
            "hour"@
        },
        Table::Casual => if j == 0 {
            "morning"@
        } else if j == 1 {
            "afternoon"@
        } else if j == 2 {
            "evening"@
        } else if j == 3 {
            "tonight"@
        } else if j == 4 {
            "noon"@
        } else {
            "midnight"@
        },
        Table::Connective => if j == 0 {
            "at"@
        } else if j == 1 {
            "in"@
        } else if j == 2 {
            "on"@
        } else if j == 3 {
            "from"@
        } else if j == 4 {
            "next"@
        } else if j == 5 {
            "this"@
        } else if j == 6 {
            "last"@
        } else if j == 7 {
            "morning"@
        } else if j == 8 {
            "afternoon"@
        } else if j == 9 {
            "evening"@
        } else if j == 10 {
            "night"@
        } else if j == 11 {
            "noon"@
        } else if j == 12 {
            "afternoon"@
        } else {
            "tomorrow"@
        },
    }
}

pub fn table_length(tab: Table) -> (r: usize)
    ensures
        r == table_len(tab),
{
    match tab {
        Table::Keyword => 3,
        Table::Qualifier => 3,
        Table::MonthStem => 14,
        Table::MonthEnding => 10,
        Table::DayStem => 7,
        Table::DayStemLong => 7,
        Table::DayEnding => 6,
        Table::MinuteUnit => 4,
        Table::HourUnit => 4,
        Table::Casual => 6,
        Table::Connective => 14,
    }
}

pub fn table_entry(tab: Table, j: usize) -> (r: &'static str)
    ensures
        r@ == table_word(tab, j as int),
{
    match tab {
        Table::Keyword => if j == 0 {
            "today"
        } else if j == 1 {
            "tomorrow"
        } else {
            "yesterday"
        },
        Table::Qualifier => if j == 0 {
            "next"
        } else if j == 1 {
            "last"
        } else {
            "this"
        },
        Table::MonthStem => if j == 0 {
            "jan"
        } else if j == 1 {
            "january"
        } else if j == 2 {
            "feb"
        } else if j == 3 || j == 4 {
            "mar"
        } else if j == 5 {
            "apr"
        } else if j == 6 {
            "may"
        } else if j == 7 {
            "jun"
        } else if j == 8 {
            "jul"
        } else if j == 9 {
            "aug"
        } else if j == 10 {
            "sep"
        } else if j == 11 {
            "oct"
        } else if j == 12 {
            "nov"
        } else {
            "dec"
        },
        Table::MonthEnding => if j == 0 {
            "ruary"
        } else if j == 1 {
            "uary"
        } else if j == 2 {
            "ch"
        } else if j == 3 {
            "il"
        } else if j == 4 {
            "e"
        } else if j == 5 {
            "y"
        } else if j == 6 {
            "ust"
        } else if j == 7 {
            "tember"
        } else if j == 8 {
            "ober"
        } else {
            "ember"
        },
        Table::DayStem => if j == 0 {
            "mon"
        } else if j == 1 {
            "tue"
        } else if j == 2 {
            "wed"
        } else if j == 3 {
            "thu"
        } else if j == 4 {
            "fri"
        } else if j == 5 {
            "sat"
        } else {
            "sun"
        },
        Table::DayStemLong => if j == 0 {
            "mon"
        } else if j == 1 {
            "tue"
        } else if j == 2 {
            "wed"
        } else if j == 3 {
            "thurs"
        } else if j == 4 {
            "fri"
        } else if j == 5 {
            "sat"
        } else {
            "sun"
        },
        Table::DayEnding => if j == 0 {
            "rday"
        } else if j == 1 {
            "day"
        } else if j == 2 {
            "rsday"
        } else if j == 3 {
            "sday"
        } else if j == 4 {
            "nesday"
        } else {
            "urday"
        },
        Table::MinuteUnit => if j == 0 {
            "mins"
        } else if j == 1 {
            "minutes"
        } else if j == 2 {
            "min"
        } else {
            "minute"
        },
        Table::HourUnit => if j == 0 {
            "hrs"
        } else if j == 1 {
            "hours"
        } else if j == 2 {
            "hr"
        } else {
            "hour"
        },
        Table::Casual => if j == 0 {
            "morning"
        } else if j == 1 {
            "afternoon"
        } else if j == 2 {
            "evening"
        } else if j == 3 {
            "tonight"
        } else if j == 4 {
            "noon"
        } else {
            "midnight"
        },
        Table::Connective => if j == 0 {
            "at"
        } else if j == 1 {
            "in"
        } else if j == 2 {
            "on"
        } else if j == 3 {
            "from"
        } else if j == 4 {
            "next"
        } else if j == 5 {
            "this"
        } else if j == 6 {
            "last"
        } else if j == 7 {
            "morning"
        } else if j == 8 {
            "afternoon"
        } else if j == 9 {
            "evening"
        } else if j == 10 {
            "night"
        } else if j == 11 {
            "noon"
        } else if j == 12 {
            "afternoon"
        } else {
            "tomorrow"
        },
    }
}

/// The first entry of `tab`, from `j` on, that occurs at `i` (in any ASCII
/// case where `ci`) with a word boundary after it where `bounded`; with the
/// position after it.
pub open spec fn first_word(
    t: Seq<char>,
    i: int,
    tab: Table,
    j: int,
    ci: bool,
    bounded: bool,
) -> Option<(int, int)>
    decreases table_len(tab) - j,
{
    if j < 0 || j >= table_len(tab) {
        None
    } else {
        let w = table_word(tab, j);
        let found = if ci {
            lit_ci_at(t, i, w)
        } else {
            lit_at(t, i, w)
        };
        if found && (!bounded || boundary(t, i + w.len())) {
            Some((j, i + w.len()))
        } else {
            first_word(t, i, tab, j + 1, ci, bounded)
        }
    }
}

pub fn first_word_at(t: &Vec<char>, i: usize, tab: Table, ci: bool, bounded: bool) -> (r: Option<
    (usize, usize),
>)
    ensures
        match first_word(t@, i as int, tab, 0, ci, bounded) {
            Some((j, e)) => r == Some((j as usize, e as usize)) && i < e <= t@.len()
                && table_word(tab, j).len() > 0 && 0 <= j < table_len(tab),
            None => r is None,
        },
{
    let n = table_length(tab);
    let tl = t.len();
    let mut j: usize = 0;
    while j < n
        invariant
            tl == t@.len(),
            n == table_len(tab),
            j <= n,
            first_word(t@, i as int, tab, 0, ci, bounded) == first_word(
                t@,
                i as int,
                tab,
                j as int,
                ci,
                bounded,
            ),
        decreases n - j,
    {
        let w = table_entry(tab, j);
        let found = if ci {
            lit_ci_at_pos(t, i, w)
        } else {
            lit_at_pos(t, i, w)
        };
        if found {
            let e = i + w.unicode_len();
            if !bounded || at_boundary(t, e) {
                proof {
                    assert(table_word(tab, j as int).len() > 0) by {
                        lemma_table_nonempty(tab, j as int);
                    }
                }
                return Some((j, e));
            }
        }
        j = j + 1;
    }
    None
}

pub proof fn lemma_table_nonempty(tab: Table, j: int)
    ensures
        table_word(tab, j).len() > 0,
{
    reveal_strlit("today");
    reveal_strlit("tomorrow");
    reveal_strlit("yesterday");
    reveal_strlit("next");
    reveal_strlit("last");
    reveal_strlit("this");
    reveal_strlit("jan");
    reveal_strlit("january");
    reveal_strlit("feb");
    reveal_strlit("mar");
    reveal_strlit("apr");
    reveal_strlit("may");
    reveal_strlit("jun");
    reveal_strlit("jul");
    reveal_strlit("aug");
    reveal_strlit("sep");
    reveal_strlit("oct");
    reveal_strlit("nov");
    reveal_strlit("dec");
    reveal_strlit("ruary");
    reveal_strlit("uary");
    reveal_strlit("ch");
    reveal_strlit("il");
    reveal_strlit("e");
    reveal_strlit("y");
    reveal_strlit("ust");
    reveal_strlit("tember");
    reveal_strlit("ober");
    reveal_strlit("ember");
    reveal_strlit("mon");
    reveal_strlit("tue");
    reveal_strlit("wed");
    reveal_strlit("thu");
    reveal_strlit("thurs");
    reveal_strlit("fri");
    reveal_strlit("sat");
    reveal_strlit("sun");
    reveal_strlit("rday");
    reveal_strlit("day");
    reveal_strlit("rsday");
    reveal_strlit("sday");
    reveal_strlit("nesday");
    reveal_strlit("urday");
    reveal_strlit("mins");
    reveal_strlit("minutes");
    reveal_strlit("min");
    reveal_strlit("minute");
    reveal_strlit("hrs");
    reveal_strlit("hours");
    reveal_strlit("hr");
    reveal_strlit("hour");
    reveal_strlit("morning");
    reveal_strlit("afternoon");
    reveal_strlit("evening");
    reveal_strlit("tonight");
    reveal_strlit("noon");
    reveal_strlit("midnight");
    reveal_strlit("at");
    reveal_strlit("in");
    reveal_strlit("on");
    reveal_strlit("from");
    reveal_strlit("night");
}

} // verus!
