//! Finding the leftmost match of a pattern, and removing every match of it.
use crate::grammar::Table;
use crate::patterns::{
    clock_at, clock_at_pos, connective_at, connective_at_pos, day_from, day_from_pos,
    full_date_at, full_date_at_pos, in_count_at, in_count_at_pos, in_units_at, in_units_at_pos,
    keyword_at, keyword_at_pos, month_date_at, month_date_at_pos, month_from, month_from_pos,
    numeric_date_at, numeric_date_at_pos, phrase_at, phrase_at_pos, qualified_month_at,
    qualified_month_at_pos, qualified_word_at, qualified_word_at_pos, split_at, split_at_pos,
};
use crate::text::{char_at, char_at_pos, is_space, is_space_char};
use vstd::prelude::*;

verus! {

/// The patterns of the grammar.
#[derive(Debug, Clone, Copy, PartialEq, Eq, Structural)]
pub enum Pattern {
    Keyword,
    InDays,
    InMonths,
    FullDate,
    NumericDate,
    MonthDate,
    MonthName,
    QualifiedWord,
    QualifiedMonth,
    DayName,
    DayNameLong,
    InMinutes,
    InHours,
    Clock,
    Casual(usize),
    Connective,
    Hyphen,
    Split,
}

/// Where a match of `p` that starts at `i` ends, if one does.
pub open spec fn match_end(p: Pattern, t: Seq<char>, i: int) -> Option<int> {
    match p {
        Pattern::Keyword => match keyword_at(t, i) {
            Some((j, e)) => Some(e),
            None => None,
        },
        Pattern::InDays => match in_count_at(t, i, "day"@) {
            Some((e, n)) => Some(e),
            None => None,
        },
        Pattern::InMonths => match in_count_at(t, i, "month"@) {
            Some((e, n)) => Some(e),
            None => None,
        },
        Pattern::FullDate => match full_date_at(t, i) {
            Some((e, ml, dl, yl)) => Some(e),
            None => None,
        },
        Pattern::NumericDate => match numeric_date_at(t, i) {
            Some((e, ml, dl)) => Some(e),
            None => None,
        },
        Pattern::MonthDate => match month_date_at(t, i) {
            Some((e, k, d, dl)) => Some(e),
            None => None,
        },
        Pattern::MonthName => match month_from(t, i, 0, false) {
            Some((k, e)) => Some(e),
            None => None,
        },
        Pattern::QualifiedWord => match qualified_word_at(t, i) {
            Some((e, j, s, wl)) => Some(e),
            None => None,
        },
        Pattern::QualifiedMonth => match qualified_month_at(t, i) {
            Some((j, e)) => Some(e),
            None => None,
        },
        Pattern::DayName => match day_from(t, i, Table::DayStem, 0) {
            Some((k, e)) => Some(e),
            None => None,
        },
        Pattern::DayNameLong => match day_from(t, i, Table::DayStemLong, 0) {
            Some((k, e)) => Some(e),
            None => None,
        },
        Pattern::InMinutes => match in_units_at(t, i, Table::MinuteUnit) {
            Some((e, n)) => Some(e),
            None => None,
        },
        Pattern::InHours => match in_units_at(t, i, Table::HourUnit) {
            Some((e, n)) => Some(e),
            None => None,
        },
        Pattern::Clock => match clock_at(t, i) {
            Some((e, hl, c, ml, m)) => Some(e),
            None => None,
        },
        Pattern::Casual(j) => phrase_at(t, i, j as int),
        Pattern::Connective => match connective_at(t, i) {
            Some((j, e)) => Some(e),
            None => None,
        },
        Pattern::Hyphen => if char_at(t, i, '-') {
            Some(i + 1)
        } else {
            None
        },
        Pattern::Split => match split_at(t, i) {
            Some((l, s, n)) => Some(s + n),
            None => None,
        },
    }
}

/// Where the leftmost match of `p` at or after `i` starts.
pub open spec fn first_match(p: Pattern, t: Seq<char>, i: int) -> Option<int>
    decreases t.len() - i,
{
    if i < 0 || i >= t.len() {
        None
    } else if match_end(p, t, i) is Some {
        Some(i)
    } else {
        first_match(p, t, i + 1)
    }
}

/// The text from `i` on with every match of `p` taken out, matches being
/// found left to right, each after the one before. (Every match is
/// non-empty and lies within the text; the test on its bounds only makes
/// the recursion's progress evident.)
pub open spec fn remove_all(p: Pattern, t: Seq<char>, i: int) -> Seq<char>
    decreases t.len() - i,
{
    if i < 0 || i > t.len() {
        Seq::empty()
    } else {
        match first_match(p, t, i) {
            Some(s) => match match_end(p, t, s) {
                Some(e) => if i <= s < e <= t.len() {
                    t.subrange(i, s) + remove_all(p, t, e)
                } else {
                    t.subrange(i, t.len() as int)
                },
                None => t.subrange(i, t.len() as int),
            },
            None => t.subrange(i, t.len() as int),
        }
    }
}

pub fn match_end_pos(p: Pattern, t: &Vec<char>, i: usize) -> (r: Option<usize>)
    requires
        i <= t@.len(),
    ensures
        match match_end(p, t@, i as int) {
            Some(e) => r == Some(e as usize) && i < e <= t@.len(),
            None => r is None,
        },
{
    let tl = t.len();
    proof {
        reveal_strlit("day");
        reveal_strlit("month");
    }
    match p {
        Pattern::Keyword => match keyword_at_pos(t, i) {
            Some((j, e)) => Some(e),
            None => None,
        },
        Pattern::InDays => match in_count_at_pos(t, i, "day") {
            Some((e, n)) => Some(e),
            None => None,
        },
        Pattern::InMonths => match in_count_at_pos(t, i, "month") {
            Some((e, n)) => Some(e),
            None => None,
        },
        Pattern::FullDate => match full_date_at_pos(t, i) {
            Some((e, ml, dl, yl)) => Some(e),
            None => None,
        },
        Pattern::NumericDate => match numeric_date_at_pos(t, i) {
            Some((e, ml, dl)) => Some(e),
            None => None,
        },
        Pattern::MonthDate => match month_date_at_pos(t, i) {
            Some((e, k, d, dl)) => Some(e),
            None => None,
        },
        Pattern::MonthName => match month_from_pos(t, i, false) {
            Some((k, e)) => Some(e),
            None => None,
        },
        Pattern::QualifiedWord => match qualified_word_at_pos(t, i) {
            Some((e, j, s, wl)) => Some(e),
            None => None,
        },
        Pattern::QualifiedMonth => match qualified_month_at_pos(t, i) {
            Some((j, e)) => Some(e),
            None => None,
        },
        Pattern::DayName => match day_from_pos(t, i, Table::DayStem) {
            Some((k, e)) => Some(e),
            None => None,
        },
        Pattern::DayNameLong => match day_from_pos(t, i, Table::DayStemLong) {
            Some((k, e)) => Some(e),
            None => None,
        },
        Pattern::InMinutes => match in_units_at_pos(t, i, Table::MinuteUnit) {
            Some((e, n)) => Some(e),
            None => None,
        },
        Pattern::InHours => match in_units_at_pos(t, i, Table::HourUnit) {
            Some((e, n)) => Some(e),
            None => None,
        },
        Pattern::Clock => match clock_at_pos(t, i) {
            Some((e, hl, c, ml, m)) => Some(e),
            None => None,
        },
        Pattern::Casual(j) => phrase_at_pos(t, i, j),
        Pattern::Connective => match connective_at_pos(t, i) {
            Some((j, e)) => Some(e),
            None => None,
        },
        Pattern::Hyphen => if char_at_pos(t, i, '-') {
            Some(i + 1)
        } else {
            None
        },
        Pattern::Split => match split_at_pos(t, i) {
            Some((l, s, n)) => Some(s + n),
            None => None,
        },
    }
}

/// Where the leftmost match of `p` at or after `from` starts.
pub fn find_from(p: Pattern, t: &Vec<char>, from: usize) -> (r: Option<usize>)
    requires
        from <= t@.len(),
    ensures
        match first_match(p, t@, from as int) {
            Some(s) => r == Some(s as usize) && from <= s < t@.len() && match_end(p, t@, s) is Some,
            None => r is None,
        },
{
    let tl = t.len();
    let mut i = from;
    while i < tl
        invariant
            tl == t@.len(),
            from <= i <= tl,
            first_match(p, t@, from as int) == first_match(p, t@, i as int),
        decreases tl - i,
    {
        match match_end_pos(p, t, i) {
            Some(_) => {
                return Some(i);
            },
            None => {},
        }
        i = i + 1;
    }
    None
}

/// Appends `t[a..b]` to `out`.
pub fn push_range(out: &mut Vec<char>, t: &Vec<char>, a: usize, b: usize)
    requires
        a <= b <= t@.len(),
    ensures
        final(out)@ == old(out)@ + t@.subrange(a as int, b as int),
{
    let mut k = a;
    while k < b
        invariant
            a <= k <= b <= t@.len(),
            out@ == old(out)@ + t@.subrange(a as int, k as int),
        decreases b - k,
    {
        out.push(t[k]);
        k = k + 1;
        assert(out@ =~= old(out)@ + t@.subrange(a as int, k as int));
    }
}

/// The text with every match of `p` taken out.
pub fn remove_matches(p: Pattern, t: &Vec<char>) -> (r: Vec<char>)
    ensures
        r@ == remove_all(p, t@, 0),
{
    let tl = t.len();
    let mut out: Vec<char> = Vec::new();
    let mut pos: usize = 0;
    while pos <= tl
        invariant
            tl == t@.len(),
            pos <= tl,
            out@ + remove_all(p, t@, pos as int) == remove_all(p, t@, 0),
        decreases tl - pos,
    {
        match find_from(p, t, pos) {
            Some(s) => {
                let e = match match_end_pos(p, t, s) {
                    Some(e) => e,
                    None => tl,
                };
                proof {
                    assert(remove_all(p, t@, pos as int) == t@.subrange(pos as int, s as int)
                        + remove_all(p, t@, e as int));
                    assert(out@ + t@.subrange(pos as int, s as int) + remove_all(p, t@, e as int)
                        =~= out@ + (t@.subrange(pos as int, s as int) + remove_all(
                        p,
                        t@,
                        e as int,
                    )));
                }
                push_range(&mut out, t, pos, s);
                pos = e;
            },
            None => {
                proof {
                    assert(remove_all(p, t@, pos as int) == t@.subrange(pos as int, tl as int));
                }
                push_range(&mut out, t, pos, tl);
                return out;
            },
        }
    }
    out
}

/// The text without leading white space.
pub open spec fn trim_start(s: Seq<char>) -> Seq<char>
    decreases s.len(),
{
    if s.len() > 0 && is_space(s[0]) {
        trim_start(s.drop_first())
    } else {
        s
    }
}

/// The text without trailing white space.
pub open spec fn trim_end(s: Seq<char>) -> Seq<char>
    decreases s.len(),
{
    if s.len() > 0 && is_space(s.last()) {
        trim_end(s.drop_last())
    } else {
        s
    }
}

/// The text without leading and trailing white space.
pub open spec fn trim(s: Seq<char>) -> Seq<char> {
    trim_end(trim_start(s))
}

/// The characters of `t` without leading and trailing white space.
pub fn trimmed(t: &Vec<char>) -> (r: Vec<char>)
    ensures
        r@ == trim(t@),
{
    let (a, b) = trim_bounds(t);
    let mut out: Vec<char> = Vec::new();
    push_range(&mut out, t, a, b);
    assert(out@ =~= t@.subrange(a as int, b as int));
    out
}

/// Where the characters of `t` start and end once white space is trimmed.
pub fn trim_bounds(t: &Vec<char>) -> (r: (usize, usize))
    ensures
        r.0 <= r.1 <= t@.len(),
        t@.subrange(r.0 as int, r.1 as int) == trim(t@),
{
    let tl = t.len();
    let mut a: usize = 0;
    assert(t@.subrange(0, tl as int) =~= t@);
    while a < tl && is_space_char(t[a])
        invariant
            tl == t@.len(),
            a <= tl,
            trim_start(t@) == trim_start(t@.subrange(a as int, tl as int)),
        decreases tl - a,
    {
        assert(t@.subrange(a as int, tl as int).drop_first() =~= t@.subrange(a + 1, tl as int));
        a = a + 1;
    }
    assert(trim_start(t@.subrange(a as int, tl as int)) == t@.subrange(a as int, tl as int));
    let mut b: usize = tl;
    while b > a && is_space_char(t[b - 1])
        invariant
            tl == t@.len(),
            a <= b <= tl,
            trim(t@) == trim_end(t@.subrange(a as int, b as int)),
        decreases b,
    {
        assert(t@.subrange(a as int, b as int).drop_last() =~= t@.subrange(a as int, b - 1));
        b = b - 1;
    }
    (a, b)
}

/// Relies on std's `FromIterator<char>` for `String`: the string of these characters.
#[verifier::external_body]
pub(crate) fn string_of(cs: &Vec<char>) -> (r: String)
    ensures
        r@ == cs@,
{
    cs.iter().collect()
}

} // verus!
