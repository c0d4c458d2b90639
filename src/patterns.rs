//! Each pattern of the grammar at one position of a text: whether it matches
//! there, where the match ends, and what it captures. Where a pattern has
//! alternatives, they are tried in order and the first that lets the rest of
//! the pattern match is taken, as a backtracking matcher does.
use crate::grammar::{first_word, first_word_at, table_word, Table};
use crate::text::{
    at_boundary, boundary, char_at, char_at_pos, count_digits, count_word, count_wordish,
    digit_at, digit_at_pos, digits_upto, eq_ci, eq_ci_char, lit_at, lit_at_pos, lit_ci_at,
    lit_ci_at_pos, space_at, space_at_pos, word_run, wordish_run,
};
use vstd::prelude::*;

verus! {

/// `M/D`: one or two digits, a slash, and one or two digits.
/// Captures (end, digits of the month, digits of the day).
pub open spec fn numeric_date_at(t: Seq<char>, i: int) -> Option<(int, int, int)> {
    let ml = digits_upto(t, i, 3) as int;
    if 1 <= ml <= 2 && char_at(t, i + ml, '/') {
        let dl = digits_upto(t, i + ml + 1, 2) as int;
        if dl >= 1 {
            Some((i + ml + 1 + dl, ml, dl))
        } else {
            None
        }
    } else {
        None
    }
}

pub fn numeric_date_at_pos(t: &Vec<char>, i: usize) -> (r: Option<(usize, usize, usize)>)
    requires
        i <= t@.len(),
    ensures
        match numeric_date_at(t@, i as int) {
            Some((e, ml, dl)) => r == Some((e as usize, ml as usize, dl as usize)) && i < e
                <= t@.len() && 1 <= ml <= 2 && 1 <= dl <= 2 && e == i + ml + 1 + dl && (forall|
                k: int,
            | 0 <= k < ml ==> #[trigger] digit_at(t@, i + k)) && (forall|k: int|
                0 <= k < dl ==> #[trigger] digit_at(t@, i + ml + 1 + k)),
            None => r is None,
        },
{
    let tl = t.len();
    let ml = count_digits(t, i, 3);
    if 1 <= ml && ml <= 2 && char_at_pos(t, i + ml, '/') {
        let p = i + ml + 1;
        let dl = count_digits(t, p, 2);
        if dl >= 1 {
            return Some((p + dl, ml, dl));
        }
    }
    None
}

/// `M/D/Y`: a numeric date, a slash, and four digits or else two.
/// Captures (end, digits of the month, digits of the day, digits of the year).
pub open spec fn full_date_at(t: Seq<char>, i: int) -> Option<(int, int, int, int)> {
    let ml = digits_upto(t, i, 3) as int;
    if 1 <= ml <= 2 && char_at(t, i + ml, '/') {
        let p = i + ml + 1;
        let dl = digits_upto(t, p, 3) as int;
        if 1 <= dl <= 2 && char_at(t, p + dl, '/') {
            let q = p + dl + 1;
            let yr = digits_upto(t, q, 4) as int;
            if yr == 4 {
                Some((q + 4, ml, dl, 4))
            } else if yr >= 2 {
                Some((q + 2, ml, dl, 2))
            } else {
                None
            }
        } else {
            None
        }
    } else {
        None
    }
}

pub fn full_date_at_pos(t: &Vec<char>, i: usize) -> (r: Option<(usize, usize, usize, usize)>)
    requires
        i <= t@.len(),
    ensures
        match full_date_at(t@, i as int) {
            Some((e, ml, dl, yl)) => r == Some((e as usize, ml as usize, dl as usize, yl as usize))
                && i < e <= t@.len() && 1 <= ml <= 2 && 1 <= dl <= 2 && (yl == 2 || yl == 4) && e
                == i + ml + dl + 2 + yl && (forall|k: int|
                0 <= k < ml ==> #[trigger] digit_at(t@, i + k)) && (forall|k: int|
                0 <= k < dl ==> #[trigger] digit_at(t@, i + ml + 1 + k)) && (forall|k: int|
                0 <= k < yl ==> #[trigger] digit_at(t@, i + ml + dl + 2 + k)),
            None => r is None,
        },
{
    let tl = t.len();
    let ml = count_digits(t, i, 3);
    if 1 <= ml && ml <= 2 && char_at_pos(t, i + ml, '/') {
        let p = i + ml + 1;
        let dl = count_digits(t, p, 3);
        if 1 <= dl && dl <= 2 && char_at_pos(t, p + dl, '/') {
            let q = p + dl + 1;
            let yr = count_digits(t, q, 4);
            if yr == 4 {
                return Some((q + 4, ml, dl, 4));
            } else if yr >= 2 {
                return Some((q + 2, ml, dl, 2));
            }
        }
    }
    None
}

/// `today`, `tomorrow` or `yesterday` as a whole word, in any case.
/// Captures (which word, end).
pub open spec fn keyword_at(t: Seq<char>, i: int) -> Option<(int, int)> {
    if boundary(t, i) {
        first_word(t, i, Table::Keyword, 0, true, true)
    } else {
        None
    }
}

pub fn keyword_at_pos(t: &Vec<char>, i: usize) -> (r: Option<(usize, usize)>)
    ensures
        match keyword_at(t@, i as int) {
            Some((j, e)) => r == Some((j as usize, e as usize)) && i < e <= t@.len() && 0 <= j < 3,
            None => r is None,
        },
{
    let tl = t.len();
    if at_boundary(t, i) {
        first_word_at(t, i, Table::Keyword, true, true)
    } else {
        None
    }
}

/// `in`, a space, one to three digits, a space and `unit` (then an optional
/// `s`), in lower case. Captures (end, digits of the count).
pub open spec fn in_count_at(t: Seq<char>, i: int, unit: Seq<char>) -> Option<(int, int)> {
    if lit_at(t, i, "in"@) && space_at(t, i + 2) {
        let n = digits_upto(t, i + 3, 4) as int;
        if 1 <= n <= 3 && space_at(t, i + 3 + n) && lit_at(t, i + 4 + n, unit) {
            let e = i + 4 + n + unit.len();
            Some(
                (
                    if char_at(t, e, 's') {
                        e + 1
                    } else {
                        e
                    },
                    n,
                ),
            )
        } else {
            None
        }
    } else {
        None
    }
}

pub fn in_count_at_pos(t: &Vec<char>, i: usize, unit: &str) -> (r: Option<(usize, usize)>)
    requires
        i <= t@.len(),
    ensures
        match in_count_at(t@, i as int, unit@) {
            Some((e, n)) => r == Some((e as usize, n as usize)) && i < e <= t@.len() && 1 <= n
                <= 3 && i + 3 + n < e && (forall|k: int|
                0 <= k < n ==> #[trigger] digit_at(t@, i + 3 + k)),
            None => r is None,
        },
{
    let tl = t.len();
    proof {
        reveal_strlit("in");
    }
    if lit_at_pos(t, i, "in") && space_at_pos(t, i + 2) {
        let n = count_digits(t, i + 3, 4);
        if 1 <= n && n <= 3 && space_at_pos(t, i + 3 + n) && lit_at_pos(t, i + 4 + n, unit) {
            let e = i + 4 + n + unit.unicode_len();
            if char_at_pos(t, e, 's') {
                return Some((e + 1, n));
            } else {
                return Some((e, n));
            }
        }
    }
    None
}

/// The first month ending, from entry `j` on, at `p`, with a space after it
/// where `spaced`; the last choice is no ending at a word boundary.
/// Gives the position after the ending (and the space).
pub open spec fn month_ending(t: Seq<char>, p: int, j: int, spaced: bool) -> Option<int>
    decreases 11 - j,
{
    if j < 0 || j > 10 {
        None
    } else if j == 10 {
        if boundary(t, p) && (!spaced || space_at(t, p)) {
            Some(
                if spaced {
                    p + 1
                } else {
                    p
                },
            )
        } else {
            None
        }
    } else {
        let w = table_word(Table::MonthEnding, j);
        if lit_ci_at(t, p, w) && (!spaced || space_at(t, p + w.len())) {
            Some(
                p + w.len() + if spaced {
                    1int
                } else {
                    0int
                },
            )
        } else {
            month_ending(t, p, j + 1, spaced)
        }
    }
}

/// The first month stem, from entry `k` on, at `i` that a month ending
/// follows. Captures (which stem, end).
pub open spec fn month_from(t: Seq<char>, i: int, k: int, spaced: bool) -> Option<(int, int)>
    decreases 14 - k,
{
    if k < 0 || k >= 14 {
        None
    } else {
        let w = table_word(Table::MonthStem, k);
        if lit_ci_at(t, i, w) && month_ending(t, i + w.len(), 0, spaced) is Some {
            Some((k, month_ending(t, i + w.len(), 0, spaced)->0))
        } else {
            month_from(t, i, k + 1, spaced)
        }
    }
}

fn month_ending_pos(t: &Vec<char>, p: usize, spaced: bool) -> (r: Option<usize>)
    requires
        p <= t@.len(),
    ensures
        match month_ending(t@, p as int, 0, spaced) {
            Some(e) => r == Some(e as usize) && p <= e <= t@.len(),
            None => r is None,
        },
{
    let tl = t.len();
    let mut j: usize = 0;
    while j < 10
        invariant
            tl == t@.len(),
            p <= t@.len(),
            j <= 10,
            month_ending(t@, p as int, 0, spaced) == month_ending(t@, p as int, j as int, spaced),
        decreases 10 - j,
    {
        let w = crate::grammar::table_entry(Table::MonthEnding, j);
        if lit_ci_at_pos(t, p, w) {
            let e = p + w.unicode_len();
            if !spaced {
                return Some(e);
            } else if space_at_pos(t, e) {
                return Some(e + 1);
            }
        }
        j = j + 1;
    }
    if at_boundary(t, p) {
        if !spaced {
            return Some(p);
        } else if space_at_pos(t, p) {
            return Some(p + 1);
        }
    }
    None
}

pub fn month_from_pos(t: &Vec<char>, i: usize, spaced: bool) -> (r: Option<(usize, usize)>)
    requires
        i <= t@.len(),
    ensures
        match month_from(t@, i as int, 0, spaced) {
            Some((k, e)) => r == Some((k as usize, e as usize)) && 0 <= k < 14 && i < e
                <= t@.len(),
            None => r is None,
        },
{
    let tl = t.len();
    let mut k: usize = 0;
    while k < 14
        invariant
            tl == t@.len(),
            i <= t@.len(),
            k <= 14,
            month_from(t@, i as int, 0, spaced) == month_from(t@, i as int, k as int, spaced),
        decreases 14 - k,
    {
        let w = crate::grammar::table_entry(Table::MonthStem, k);
        if lit_ci_at_pos(t, i, w) {
            let p = i + w.unicode_len();
            match month_ending_pos(t, p, spaced) {
                Some(e) => {
                    proof {
                        crate::grammar::lemma_table_nonempty(Table::MonthStem, k as int);
                    }
                    return Some((k, e));
                },
                None => {},
            }
        }
        k = k + 1;
    }
    None
}

/// An English month name, a space and an optional one- or two-digit day.
/// Captures (end, which stem, where the day starts, digits of the day).
pub open spec fn month_date_at(t: Seq<char>, i: int) -> Option<(int, int, int, int)> {
    match month_from(t, i, 0, true) {
        Some((k, e)) => {
            let dl = digits_upto(t, e, 2) as int;
            Some((e + dl, k, e, dl))
        },
        None => None,
    }
}

pub fn month_date_at_pos(t: &Vec<char>, i: usize) -> (r: Option<(usize, usize, usize, usize)>)
    requires
        i <= t@.len(),
    ensures
        match month_date_at(t@, i as int) {
            Some((e, k, d, dl)) => r == Some((e as usize, k as usize, d as usize, dl as usize))
                && 0 <= k < 14 && i < e <= t@.len() && i < d && d + dl == e && dl <= 2 && (forall|
                x: int,
            | 0 <= x < dl ==> #[trigger] digit_at(t@, d + x)),
            None => r is None,
        },
{
    let tl = t.len();
    match month_from_pos(t, i, true) {
        Some((k, e)) => {
            let dl = count_digits(t, e, 2);
            Some((e + dl, k, e, dl))
        },
        None => None,
    }
}

/// `next`, `last` or `this`, a space and a word, in any case.
/// Captures (end, which qualifier, where the word starts, its length).
pub open spec fn qualified_word_at(t: Seq<char>, i: int) -> Option<(int, int, int, int)> {
    match first_word(t, i, Table::Qualifier, 0, true, false) {
        Some((j, e)) => {
            let wl = word_run(t, e + 1) as int;
            if space_at(t, e) && wl >= 1 {
                Some((e + 1 + wl, j, e + 1, wl))
            } else {
                None
            }
        },
        None => None,
    }
}

pub fn qualified_word_at_pos(t: &Vec<char>, i: usize) -> (r: Option<
    (usize, usize, usize, usize),
>)
    requires
        i <= t@.len(),
    ensures
        match qualified_word_at(t@, i as int) {
            Some((e, j, s, wl)) => r == Some((e as usize, j as usize, s as usize, wl as usize))
                && i < e <= t@.len() && s + wl == e && 0 <= j < 3,
            None => r is None,
        },
{
    let tl = t.len();
    match first_word_at(t, i, Table::Qualifier, true, false) {
        Some((j, e)) => {
            if space_at_pos(t, e) {
                let wl = count_word(t, e + 1);
                if wl >= 1 {
                    return Some((e + 1 + wl, j, e + 1, wl));
                }
            }
            None
        },
        None => None,
    }
}

/// `next`, `last` or `this`, a space and `month`, in any case.
/// Captures (which qualifier, end).
pub open spec fn qualified_month_at(t: Seq<char>, i: int) -> Option<(int, int)> {
    match first_word(t, i, Table::Qualifier, 0, true, false) {
        Some((j, e)) => if space_at(t, e) && lit_ci_at(t, e + 1, "month"@) {
            Some((j, e + 6))
        } else {
            None
        },
        None => None,
    }
}

pub fn qualified_month_at_pos(t: &Vec<char>, i: usize) -> (r: Option<(usize, usize)>)
    requires
        i <= t@.len(),
    ensures
        match qualified_month_at(t@, i as int) {
            Some((j, e)) => r == Some((j as usize, e as usize)) && i < e <= t@.len() && 0 <= j
                < 3,
            None => r is None,
        },
{
    let tl = t.len();
    proof {
        reveal_strlit("month");
    }
    match first_word_at(t, i, Table::Qualifier, true, false) {
        Some((j, e)) => {
            if space_at_pos(t, e) && lit_ci_at_pos(t, e + 1, "month") {
                return Some((j, e + 6));
            }
            None
        },
        None => None,
    }
}

/// The first weekday ending, from entry `j` on, at `p` with a word boundary
/// after it; the last choice is no ending. Gives the position after it.
pub open spec fn day_ending(t: Seq<char>, p: int, j: int) -> Option<int>
    decreases 7 - j,
{
    if j < 0 || j > 6 {
        None
    } else if j == 6 {
        if boundary(t, p) {
            Some(p)
        } else {
            None
        }
    } else {
        let w = table_word(Table::DayEnding, j);
        if lit_ci_at(t, p, w) && boundary(t, p + w.len()) {
            Some(p + w.len())
        } else {
            day_ending(t, p, j + 1)
        }
    }
}

/// The first weekday stem of `stems`, from entry `k` on, at `i` that a
/// weekday ending follows. Captures (which stem, end).
pub open spec fn day_from(t: Seq<char>, i: int, stems: Table, k: int) -> Option<(int, int)>
    decreases 7 - k,
{
    if k < 0 || k >= 7 {
        None
    } else {
        let w = table_word(stems, k);
        if lit_ci_at(t, i, w) && day_ending(t, i + w.len(), 0) is Some {
            Some((k, day_ending(t, i + w.len(), 0)->0))
        } else {
            day_from(t, i, stems, k + 1)
        }
    }
}

fn day_ending_pos(t: &Vec<char>, p: usize) -> (r: Option<usize>)
    requires
        p <= t@.len(),
    ensures
        match day_ending(t@, p as int, 0) {
            Some(e) => r == Some(e as usize) && p <= e <= t@.len(),
            None => r is None,
        },
{
    let tl = t.len();
    let mut j: usize = 0;
    while j < 6
        invariant
            tl == t@.len(),
            p <= t@.len(),
            j <= 6,
            day_ending(t@, p as int, 0) == day_ending(t@, p as int, j as int),
        decreases 6 - j,
    {
        let w = crate::grammar::table_entry(Table::DayEnding, j);
        if lit_ci_at_pos(t, p, w) {
            let e = p + w.unicode_len();
            if at_boundary(t, e) {
                return Some(e);
            }
        }
        j = j + 1;
    }
    if at_boundary(t, p) {
        Some(p)
    } else {
        None
    }
}

pub fn day_from_pos(t: &Vec<char>, i: usize, stems: Table) -> (r: Option<(usize, usize)>)
    requires
        i <= t@.len(),
        stems == Table::DayStem || stems == Table::DayStemLong,
    ensures
        match day_from(t@, i as int, stems, 0) {
            Some((k, e)) => r == Some((k as usize, e as usize)) && 0 <= k < 7 && i < e
                <= t@.len(),
            None => r is None,
        },
{
    let tl = t.len();
    let mut k: usize = 0;
    while k < 7
        invariant
            tl == t@.len(),
            i <= t@.len(),
            k <= 7,
            day_from(t@, i as int, stems, 0) == day_from(t@, i as int, stems, k as int),
        decreases 7 - k,
    {
        let w = crate::grammar::table_entry(stems, k);
        if lit_ci_at_pos(t, i, w) {
            let p = i + w.unicode_len();
            match day_ending_pos(t, p) {
                Some(e) => {
                    proof {
                        crate::grammar::lemma_table_nonempty(stems, k as int);
                    }
                    return Some((k, e));
                },
                None => {},
            }
        }
        k = k + 1;
    }
    None
}

pub open spec fn ap_at(t: Seq<char>, r: int) -> bool {
    0 <= r < t.len() && (eq_ci(t[r], 'a') || eq_ci(t[r], 'p'))
}

pub open spec fn m_at(t: Seq<char>, r: int) -> bool {
    0 <= r < t.len() && eq_ci(t[r], 'm')
}

/// A clock time may end at `e`: at the end of the text or at a word boundary.
pub open spec fn clock_close(t: Seq<char>, e: int) -> bool {
    e == t.len() || boundary(t, e)
}

/// The optional meridiem of a clock time (`am`, `pm`, `a` or `p`, in any
/// case) at `r`, and the end of the clock time. Gives (end, meridiem length).
pub open spec fn clock_meridiem(t: Seq<char>, r: int) -> Option<(int, int)> {
    if ap_at(t, r) && m_at(t, r + 1) && clock_close(t, r + 2) {
        Some((r + 2, 2))
    } else if ap_at(t, r) && clock_close(t, r + 1) {
        Some((r + 1, 1))
    } else if clock_close(t, r) {
        Some((r, 0))
    } else {
        None
    }
}

/// Optional two minute digits at `q`, then the rest of a clock time.
/// Gives (end, minute digits, meridiem length).
pub open spec fn clock_minutes(t: Seq<char>, q: int) -> Option<(int, int, int)> {
    if digit_at(t, q) && digit_at(t, q + 1) && clock_meridiem(t, q + 2) is Some {
        let (e, m) = clock_meridiem(t, q + 2)->0;
        Some((e, 2, m))
    } else {
        match clock_meridiem(t, q) {
            Some((e, m)) => Some((e, 0, m)),
            None => None,
        }
    }
}

/// An optional colon at `p`, then the rest of a clock time.
/// Gives (end, colon length, minute digits, meridiem length).
pub open spec fn clock_colon(t: Seq<char>, p: int) -> Option<(int, int, int, int)> {
    if char_at(t, p, ':') && clock_minutes(t, p + 1) is Some {
        let (e, ml, m) = clock_minutes(t, p + 1)->0;
        Some((e, 1, ml, m))
    } else {
        match clock_minutes(t, p) {
            Some((e, ml, m)) => Some((e, 0, ml, m)),
            None => None,
        }
    }
}

/// A clock time: at the start of the text or of a word, one or two hour
/// digits, an optional colon, two optional minute digits and an optional
/// meridiem, ending at the end of the text or of a word.
/// Captures (end, hour digits, colon length, minute digits, meridiem length).
pub open spec fn clock_at(t: Seq<char>, i: int) -> Option<(int, int, int, int, int)> {
    if !(i == 0 || boundary(t, i)) {
        None
    } else {
        let run = digits_upto(t, i, 2) as int;
        if run == 2 && clock_colon(t, i + 2) is Some {
            let (e, c, ml, m) = clock_colon(t, i + 2)->0;
            Some((e, 2, c, ml, m))
        } else if run >= 1 && clock_colon(t, i + 1) is Some {
            let (e, c, ml, m) = clock_colon(t, i + 1)->0;
            Some((e, 1, c, ml, m))
        } else {
            None
        }
    }
}

fn ap_at_pos(t: &Vec<char>, r: usize) -> (b: bool)
    ensures
        b == ap_at(t@, r as int),
{
    r < t.len() && (eq_ci_char(t[r], 'a') || eq_ci_char(t[r], 'p'))
}

fn m_at_pos(t: &Vec<char>, r: usize) -> (b: bool)
    ensures
        b == m_at(t@, r as int),
{
    r < t.len() && eq_ci_char(t[r], 'm')
}

fn clock_close_pos(t: &Vec<char>, e: usize) -> (b: bool)
    ensures
        b == clock_close(t@, e as int),
{
    e == t.len() || at_boundary(t, e)
}

fn clock_meridiem_pos(t: &Vec<char>, r: usize) -> (o: Option<(usize, usize)>)
    requires
        r <= t@.len(),
    ensures
        match clock_meridiem(t@, r as int) {
            Some((e, m)) => o == Some((e as usize, m as usize)) && r <= e <= t@.len() && e == r
                + m,
            None => o is None,
        },
{
    let tl = t.len();
    if ap_at_pos(t, r) && m_at_pos(t, r + 1) && clock_close_pos(t, r + 2) {
        Some((r + 2, 2))
    } else if ap_at_pos(t, r) && clock_close_pos(t, r + 1) {
        Some((r + 1, 1))
    } else if clock_close_pos(t, r) {
        Some((r, 0))
    } else {
        None
    }
}

fn clock_minutes_pos(t: &Vec<char>, q: usize) -> (o: Option<(usize, usize, usize)>)
    requires
        q <= t@.len(),
    ensures
        match clock_minutes(t@, q as int) {
            Some((e, ml, m)) => o == Some((e as usize, ml as usize, m as usize)) && q <= e
                <= t@.len() && e == q + ml + m && (ml == 0 || ml == 2),
            None => o is None,
        },
{
    let tl = t.len();
    if digit_at_pos(t, q) && digit_at_pos(t, q + 1) {
        match clock_meridiem_pos(t, q + 2) {
            Some((e, m)) => {
                return Some((e, 2, m));
            },
            None => {},
        }
    }
    match clock_meridiem_pos(t, q) {
        Some((e, m)) => Some((e, 0, m)),
        None => None,
    }
}

fn clock_colon_pos(t: &Vec<char>, p: usize) -> (o: Option<(usize, usize, usize, usize)>)
    requires
        p <= t@.len(),
    ensures
        match clock_colon(t@, p as int) {
            Some((e, c, ml, m)) => o == Some((e as usize, c as usize, ml as usize, m as usize))
                && p <= e <= t@.len() && e == p + c + ml + m && (ml == 0 || ml == 2) && (c == 0
                || c == 1),
            None => o is None,
        },
{
    let tl = t.len();
    if char_at_pos(t, p, ':') {
        match clock_minutes_pos(t, p + 1) {
            Some((e, ml, m)) => {
                return Some((e, 1, ml, m));
            },
            None => {},
        }
    }
    match clock_minutes_pos(t, p) {
        Some((e, ml, m)) => Some((e, 0, ml, m)),
        None => None,
    }
}

pub fn clock_at_pos(t: &Vec<char>, i: usize) -> (o: Option<(usize, usize, usize, usize, usize)>)
    requires
        i <= t@.len(),
    ensures
        match clock_at(t@, i as int) {
            Some((e, hl, c, ml, m)) => o == Some(
                (e as usize, hl as usize, c as usize, ml as usize, m as usize),
            ) && i < e <= t@.len() && e == i + hl + c + ml + m && 1 <= hl <= 2 && (ml == 0
                || ml == 2) && (c == 0 || c == 1) && (m == 0 || ap_at(t@, e - m)) && (forall|
                k: int,
            | 0 <= k < hl ==> #[trigger] digit_at(t@, i + k)) && (forall|k: int|
                0 <= k < ml ==> #[trigger] digit_at(t@, i + hl + c + k)),
            None => o is None,
        },
{
    let tl = t.len();
    if !(i == 0 || at_boundary(t, i)) {
        return None;
    }
    let run = count_digits(t, i, 2);
    if run == 2 {
        match clock_colon_pos(t, i + 2) {
            Some((e, c, ml, m)) => {
                return Some((e, 2, c, ml, m));
            },
            None => {},
        }
    }
    if run >= 1 {
        match clock_colon_pos(t, i + 1) {
            Some((e, c, ml, m)) => {
                return Some((e, 1, c, ml, m));
            },
            None => {},
        }
    }
    None
}

/// `in `, one or two digits, a space and a spelling from `units`, in lower
/// case. Captures (end, digits of the count).
pub open spec fn in_units_at(t: Seq<char>, i: int, units: Table) -> Option<(int, int)> {
    if lit_at(t, i, "in "@) {
        let n = digits_upto(t, i + 3, 3) as int;
        if 1 <= n <= 2 && char_at(t, i + 3 + n, ' ') {
            match first_word(t, i + 4 + n, units, 0, false, false) {
                Some((j, e)) => Some((e, n)),
                None => None,
            }
        } else {
            None
        }
    } else {
        None
    }
}

pub fn in_units_at_pos(t: &Vec<char>, i: usize, units: Table) -> (o: Option<(usize, usize)>)
    requires
        i <= t@.len(),
    ensures
        match in_units_at(t@, i as int, units) {
            Some((e, n)) => o == Some((e as usize, n as usize)) && i < e <= t@.len() && 1 <= n
                <= 2 && i + 3 + n < e && (forall|k: int|
                0 <= k < n ==> #[trigger] digit_at(t@, i + 3 + k)),
            None => o is None,
        },
{
    let tl = t.len();
    proof {
        reveal_strlit("in ");
    }
    if lit_at_pos(t, i, "in ") {
        let n = count_digits(t, i + 3, 3);
        if 1 <= n && n <= 2 && char_at_pos(t, i + 3 + n, ' ') {
            match first_word_at(t, i + 4 + n, units, false, false) {
                Some((j, e)) => {
                    return Some((e, n));
                },
                None => {},
            }
        }
    }
    None
}

/// A connecting or relative word, whole and in any case. Captures (which word, end).
pub open spec fn connective_at(t: Seq<char>, i: int) -> Option<(int, int)> {
    if boundary(t, i) {
        first_word(t, i, Table::Connective, 0, true, true)
    } else {
        None
    }
}

pub fn connective_at_pos(t: &Vec<char>, i: usize) -> (o: Option<(usize, usize)>)
    ensures
        match connective_at(t@, i as int) {
            Some((j, e)) => o == Some((j as usize, e as usize)) && i < e <= t@.len(),
            None => o is None,
        },
{
    if at_boundary(t, i) {
        first_word_at(t, i, Table::Connective, true, true)
    } else {
        None
    }
}

/// A hyphen or `to` at `q`; gives the position after it.
pub open spec fn sep_mark(t: Seq<char>, q: int) -> Option<int> {
    if char_at(t, q, '-') {
        Some(q + 1)
    } else if lit_at(t, q, "to"@) {
        Some(q + 2)
    } else {
        None
    }
}

/// After a separator: an optional space, then a run of word characters and
/// slashes. Gives (where the run starts, its length).
pub open spec fn sep_tail(t: Seq<char>, r: int) -> Option<(int, int)> {
    if space_at(t, r) && wordish_run(t, r + 1) >= 1 {
        Some((r + 1, wordish_run(t, r + 1) as int))
    } else if wordish_run(t, r) >= 1 {
        Some((r, wordish_run(t, r) as int))
    } else {
        None
    }
}

/// A separator with optional spaces around it at `p`, and what follows it.
pub open spec fn sep_from(t: Seq<char>, p: int) -> Option<(int, int)> {
    let spaced = if space_at(t, p) {
        match sep_mark(t, p + 1) {
            Some(r) => sep_tail(t, r),
            None => None,
        }
    } else {
        None
    };
    if spaced is Some {
        spaced
    } else {
        match sep_mark(t, p) {
            Some(r) => sep_tail(t, r),
            None => None,
        }
    }
}

/// The longest first part, of at most `l` characters, that a separator
/// follows. Gives (length of the first part, where the second starts, its length).
pub open spec fn split_len(t: Seq<char>, i: int, l: int) -> Option<(int, int, int)>
    decreases l,
{
    if l <= 0 {
        None
    } else {
        match sep_from(t, i + l) {
            Some((s, n)) => Some((l, s, n)),
            None => split_len(t, i, l - 1),
        }
    }
}

/// Two runs of word characters and slashes joined by a hyphen or `to`, with
/// optional spaces around it. Captures (length of the first run, where the
/// second starts, its length).
pub open spec fn split_at(t: Seq<char>, i: int) -> Option<(int, int, int)> {
    split_len(t, i, wordish_run(t, i) as int)
}

fn sep_mark_pos(t: &Vec<char>, q: usize) -> (o: Option<usize>)
    requires
        q <= t@.len(),
    ensures
        match sep_mark(t@, q as int) {
            Some(r) => o == Some(r as usize) && q < r <= t@.len(),
            None => o is None,
        },
{
    let tl = t.len();
    proof {
        reveal_strlit("to");
    }
    if char_at_pos(t, q, '-') {
        Some(q + 1)
    } else if lit_at_pos(t, q, "to") {
        Some(q + 2)
    } else {
        None
    }
}

fn sep_tail_pos(t: &Vec<char>, r: usize) -> (o: Option<(usize, usize)>)
    requires
        r <= t@.len(),
    ensures
        match sep_tail(t@, r as int) {
            Some((s, n)) => o == Some((s as usize, n as usize)) && r <= s && s + n <= t@.len()
                && n >= 1,
            None => o is None,
        },
{
    let tl = t.len();
    if space_at_pos(t, r) {
        let n = count_wordish(t, r + 1);
        if n >= 1 {
            return Some((r + 1, n));
        }
    }
    let n = count_wordish(t, r);
    if n >= 1 {
        Some((r, n))
    } else {
        None
    }
}

fn sep_from_pos(t: &Vec<char>, p: usize) -> (o: Option<(usize, usize)>)
    requires
        p <= t@.len(),
    ensures
        match sep_from(t@, p as int) {
            Some((s, n)) => o == Some((s as usize, n as usize)) && p < s && s + n <= t@.len()
                && n >= 1,
            None => o is None,
        },
{
    let tl = t.len();
    if space_at_pos(t, p) {
        match sep_mark_pos(t, p + 1) {
            Some(r) => match sep_tail_pos(t, r) {
                Some(x) => {
                    return Some(x);
                },
                None => {},
            },
            None => {},
        }
    }
    match sep_mark_pos(t, p) {
        Some(r) => sep_tail_pos(t, r),
        None => None,
    }
}

pub fn split_at_pos(t: &Vec<char>, i: usize) -> (o: Option<(usize, usize, usize)>)
    requires
        i <= t@.len(),
    ensures
        match split_at(t@, i as int) {
            Some((l, s, n)) => o == Some((l as usize, s as usize, n as usize)) && 1 <= l && i + l
                < s && s + n <= t@.len() && n >= 1,
            None => o is None,
        },
{
    let tl = t.len();
    let run = count_wordish(t, i);
    let mut l = run;
    while l > 0
        invariant
            tl == t@.len(),
            i + run <= t@.len(),
            l <= run,
            split_at(t@, i as int) == split_len(t@, i as int, l as int),
        decreases l,
    {
        match sep_from_pos(t, i + l) {
            Some((s, n)) => {
                return Some((l, s, n));
            },
            None => {},
        }
        l = l - 1;
    }
    None
}

/// A casual phrase of time, in lower case. Gives the end.
pub open spec fn phrase_at(t: Seq<char>, i: int, j: int) -> Option<int> {
    if lit_at(t, i, table_word(Table::Casual, j)) {
        Some(i + table_word(Table::Casual, j).len())
    } else {
        None
    }
}

pub fn phrase_at_pos(t: &Vec<char>, i: usize, j: usize) -> (o: Option<usize>)
    requires
        i <= t@.len(),
    ensures
        match phrase_at(t@, i as int, j as int) {
            Some(e) => o == Some(e as usize) && i < e <= t@.len(),
            None => o is None,
        },
{
    let tl = t.len();
    let w = crate::grammar::table_entry(Table::Casual, j);
    if lit_at_pos(t, i, w) {
        proof {
            crate::grammar::lemma_table_nonempty(Table::Casual, j as int);
        }
        Some(i + w.unicode_len())
    } else {
        None
    }
}

} // verus!
