//! Character classes and the small matching steps that the grammar is built from.
//!
//! Digits and word characters are ASCII (`0-9`; letters, digits and `_`),
//! case-insensitive comparison folds ASCII letters, and white space is the
//! Unicode `White_Space` set.
use vstd::prelude::*;

verus! {

pub open spec fn is_digit(c: char) -> bool {
    '0' <= c && c <= '9'
}

pub open spec fn is_word(c: char) -> bool {
    ('a' <= c && c <= 'z') || ('A' <= c && c <= 'Z') || is_digit(c) || c == '_'
}

pub open spec fn is_space(c: char) -> bool {
    let u = c as u32;
    (0x09 <= u && u <= 0x0d) || u == 0x20 || u == 0x85 || u == 0xa0 || u == 0x1680 || (0x2000
        <= u && u <= 0x200a) || u == 0x2028 || u == 0x2029 || u == 0x202f || u == 0x205f || u
        == 0x3000
}

/// `c` equals the lower-case letter or symbol `l`, ignoring ASCII case.
pub open spec fn eq_ci(c: char, l: char) -> bool {
    c == l || ('a' <= l && l <= 'z' && (c as u32) + 32 == (l as u32))
}

pub open spec fn word_at(t: Seq<char>, i: int) -> bool {
    0 <= i < t.len() && is_word(t[i])
}

pub open spec fn digit_at(t: Seq<char>, i: int) -> bool {
    0 <= i < t.len() && is_digit(t[i])
}

pub open spec fn space_at(t: Seq<char>, i: int) -> bool {
    0 <= i < t.len() && is_space(t[i])
}

pub open spec fn char_at(t: Seq<char>, i: int, c: char) -> bool {
    0 <= i < t.len() && t[i] == c
}

/// A word boundary lies before position `i`.
pub open spec fn boundary(t: Seq<char>, i: int) -> bool {
    word_at(t, i - 1) != word_at(t, i)
}

/// `w` occurs at position `i`.
pub open spec fn lit_at(t: Seq<char>, i: int, w: Seq<char>) -> bool {
    0 <= i && i + w.len() <= t.len() && forall|k: int| 0 <= k < w.len() ==> t[i + k] == w[k]
}

/// `w`, written in lower case, occurs at position `i` in any ASCII case.
pub open spec fn lit_ci_at(t: Seq<char>, i: int, w: Seq<char>) -> bool {
    0 <= i && i + w.len() <= t.len() && forall|k: int|
        0 <= k < w.len() ==> eq_ci(#[trigger] t[i + k], w[k])
}

/// How many digits, up to `max`, run from position `i`.
pub open spec fn digits_upto(t: Seq<char>, i: int, max: nat) -> nat
    decreases max,
{
    if max == 0 || !digit_at(t, i) {
        0
    } else {
        1 + digits_upto(t, i + 1, (max - 1) as nat)
    }
}

/// How many word characters run from position `i`.
pub open spec fn word_run(t: Seq<char>, i: int) -> nat
    decreases t.len() - i,
{
    if word_at(t, i) {
        1 + word_run(t, i + 1)
    } else {
        0
    }
}

pub open spec fn digit_value(c: char) -> int {
    (c as u32) - ('0' as u32)
}

/// The decimal value of the `n` characters from position `i`.
pub open spec fn digits_value(t: Seq<char>, i: int, n: nat) -> int
    decreases n,
{
    if n == 0 {
        0
    } else {
        digits_value(t, i, (n - 1) as nat) * 10 + digit_value(t[i + n - 1])
    }
}

pub open spec fn pow10(n: nat) -> int
    decreases n,
{
    if n == 0 {
        1
    } else {
        10 * pow10((n - 1) as nat)
    }
}

pub proof fn lemma_digits_upto(t: Seq<char>, i: int, max: nat)
    ensures
        digits_upto(t, i, max) <= max,
        forall|k: int| 0 <= k < digits_upto(t, i, max) ==> #[trigger] digit_at(t, i + k),
        digits_upto(t, i, max) < max ==> !digit_at(t, i + digits_upto(t, i, max)),
    decreases max,
{
    if max > 0 && digit_at(t, i) {
        lemma_digits_upto(t, i + 1, (max - 1) as nat);
        assert forall|k: int| 0 <= k < digits_upto(t, i, max) implies #[trigger] digit_at(t, i + k) by {
            if k > 0 {
                assert(digit_at(t, (i + 1) + (k - 1)));
            }
        }
    }
}

pub proof fn lemma_word_run(t: Seq<char>, i: int)
    ensures
        forall|k: int| 0 <= k < word_run(t, i) ==> #[trigger] word_at(t, i + k),
        !word_at(t, i + word_run(t, i)),
    decreases t.len() - i,
{
    if word_at(t, i) {
        lemma_word_run(t, i + 1);
        assert forall|k: int| 0 <= k < word_run(t, i) implies #[trigger] word_at(t, i + k) by {
            if k > 0 {
                assert(word_at(t, (i + 1) + (k - 1)));
            }
        }
    }
}

/// The characters of `s`.
pub fn chars_of(s: &str) -> (r: Vec<char>)
    ensures
        r@ == s@,
{
    let n = s.unicode_len();
    let mut r: Vec<char> = Vec::new();
    let mut i: usize = 0;
    while i < n
        invariant
            n == s@.len(),
            i <= n,
            r@ == s@.subrange(0, i as int),
        decreases n - i,
    {
        r.push(s.get_char(i));
        i = i + 1;
    }
    assert(r@ =~= s@);
    r
}

pub fn is_digit_char(c: char) -> (r: bool)
    ensures
        r == is_digit(c),
{
    '0' <= c && c <= '9'
}

pub fn is_word_char(c: char) -> (r: bool)
    ensures
        r == is_word(c),
{
    ('a' <= c && c <= 'z') || ('A' <= c && c <= 'Z') || ('0' <= c && c <= '9') || c == '_'
}

pub fn is_space_char(c: char) -> (r: bool)
    ensures
        r == is_space(c),
{
    let u = c as u32;
    (0x09 <= u && u <= 0x0d) || u == 0x20 || u == 0x85 || u == 0xa0 || u == 0x1680 || (0x2000
        <= u && u <= 0x200a) || u == 0x2028 || u == 0x2029 || u == 0x202f || u == 0x205f || u
        == 0x3000
}

pub fn word_at_pos(t: &Vec<char>, i: usize) -> (r: bool)
    ensures
        r == word_at(t@, i as int),
{
    i < t.len() && is_word_char(t[i])
}

pub fn digit_at_pos(t: &Vec<char>, i: usize) -> (r: bool)
    ensures
        r == digit_at(t@, i as int),
{
    i < t.len() && is_digit_char(t[i])
}

pub fn space_at_pos(t: &Vec<char>, i: usize) -> (r: bool)
    ensures
        r == space_at(t@, i as int),
{
    i < t.len() && is_space_char(t[i])
}

pub fn char_at_pos(t: &Vec<char>, i: usize, c: char) -> (r: bool)
    ensures
        r == char_at(t@, i as int, c),
{
    i < t.len() && t[i] == c
}

pub fn at_boundary(t: &Vec<char>, i: usize) -> (r: bool)
    ensures
        r == boundary(t@, i as int),
{
    let before = if i == 0 {
        false
    } else {
        word_at_pos(t, i - 1)
    };
    before != word_at_pos(t, i)
}

pub fn lit_at_pos(t: &Vec<char>, i: usize, w: &str) -> (r: bool)
    ensures
        r == lit_at(t@, i as int, w@),
{
    let n = w.unicode_len();
    let tl = t.len();
    if i > tl || n > tl - i {
        return false;
    }
    let mut k: usize = 0;
    while k < n
        invariant
            tl == t@.len(),
            n == w@.len(),
            i + n <= t@.len(),
            k <= n,
            forall|j: int| 0 <= j < k ==> t@[i + j] == w@[j],
        decreases n - k,
    {
        if t[i + k] != w.get_char(k) {
            return false;
        }
        k = k + 1;
    }
    true
}

pub fn eq_ci_char(c: char, l: char) -> (r: bool)
    ensures
        r == eq_ci(c, l),
{
    c == l || ('a' <= l && l <= 'z' && (c as u32) + 32 == (l as u32))
}

pub fn lit_ci_at_pos(t: &Vec<char>, i: usize, w: &str) -> (r: bool)
    ensures
        r == lit_ci_at(t@, i as int, w@),
{
    let n = w.unicode_len();
    let tl = t.len();
    if i > tl || n > tl - i {
        return false;
    }
    let mut k: usize = 0;
    while k < n
        invariant
            tl == t@.len(),
            n == w@.len(),
            i + n <= t@.len(),
            k <= n,
            forall|j: int| 0 <= j < k ==> eq_ci(#[trigger] t@[i + j], w@[j]),
        decreases n - k,
    {
        if !eq_ci_char(t[i + k], w.get_char(k)) {
            return false;
        }
        k = k + 1;
    }
    true
}

/// How many digits, up to `max`, run from position `i`.
pub fn count_digits(t: &Vec<char>, i: usize, max: usize) -> (r: usize)
    ensures
        r == digits_upto(t@, i as int, max as nat),
        r <= max,
        forall|k: int| 0 <= k < r ==> #[trigger] digit_at(t@, i + k),
        r < max ==> !digit_at(t@, i + r),
        r > 0 ==> i + r <= t@.len(),
{
    proof {
        lemma_digits_upto(t@, i as int, max as nat);
        if digits_upto(t@, i as int, max as nat) > 0 {
            assert(digit_at(t@, i + (digits_upto(t@, i as int, max as nat) - 1)));
        }
    }
    let mut k: usize = 0;
    while k < max && i <= t.len() && k < t.len() - i && is_digit_char(t[i + k])
        invariant
            k <= max,
            i <= t@.len() ==> k <= t@.len() - i,
            i > t@.len() ==> k == 0,
            digits_upto(t@, i as int, max as nat) == k + digits_upto(
                t@,
                i + k,
                (max - k) as nat,
            ),
        decreases max - k,
    {
        assert(digits_upto(t@, i + k, (max - k) as nat) == 1 + digits_upto(
            t@,
            i + k + 1,
            (max - k - 1) as nat,
        ));
        k = k + 1;
    }
    k
}

/// How many word characters run from position `i`.
pub fn count_word(t: &Vec<char>, i: usize) -> (r: usize)
    requires
        i <= t@.len(),
    ensures
        r == word_run(t@, i as int),
        i + r <= t@.len(),
        forall|k: int| 0 <= k < r ==> #[trigger] word_at(t@, i + k),
{
    proof {
        lemma_word_run(t@, i as int);
    }
    let tl = t.len();
    let mut k: usize = 0;
    while i + k < tl && is_word_char(t[i + k])
        invariant
            tl == t@.len(),
            i + k <= t@.len(),
            word_run(t@, i as int) == k + word_run(t@, i + k),
        decreases t@.len() - i - k,
    {
        k = k + 1;
    }
    k
}

/// The decimal value of the `n` digits from position `i`.
pub fn digits_num(t: &Vec<char>, i: usize, n: usize) -> (r: u32)
    requires
        n <= 4,
        forall|k: int| 0 <= k < n ==> #[trigger] digit_at(t@, i + k),
    ensures
        r == digits_value(t@, i as int, n as nat),
        r < pow10(n as nat),
{
    let tl = t.len();
    let mut v: u32 = 0;
    let mut k: usize = 0;
    while k < n
        invariant
            tl == t@.len(),
            k <= n <= 4,
            forall|j: int| 0 <= j < n ==> #[trigger] digit_at(t@, i + j),
            v == digits_value(t@, i as int, k as nat),
            v < pow10(k as nat),
            pow10(k as nat) <= 10000,
        decreases n - k,
    {
        assert(digit_at(t@, i + k));
        let d = (t[i + k] as u32) - ('0' as u32);
        assert(v * 10 + d < 10 * pow10(k as nat)) by (nonlinear_arith)
            requires
                v < pow10(k as nat),
                d <= 9,
        ;
        assert(pow10((k + 1) as nat) == 10 * pow10(k as nat));
        v = v * 10 + d;
        k = k + 1;
        assert(pow10(k as nat) <= 10000) by {
            reveal_with_fuel(pow10, 5);
        }
    }
    v
}

/// A word character or a slash.
pub open spec fn is_wordish(c: char) -> bool {
    is_word(c) || c == '/'
}

pub open spec fn wordish_at(t: Seq<char>, i: int) -> bool {
    0 <= i < t.len() && is_wordish(t[i])
}

/// How many word characters and slashes run from position `i`.
pub open spec fn wordish_run(t: Seq<char>, i: int) -> nat
    decreases t.len() - i,
{
    if wordish_at(t, i) {
        1 + wordish_run(t, i + 1)
    } else {
        0
    }
}

/// How many word characters and slashes run from position `i`.
pub fn count_wordish(t: &Vec<char>, i: usize) -> (r: usize)
    requires
        i <= t@.len(),
    ensures
        r == wordish_run(t@, i as int),
        i + r <= t@.len(),
{
    let tl = t.len();
    let mut k: usize = 0;
    while i + k < tl && (is_word_char(t[i + k]) || t[i + k] == '/')
        invariant
            tl == t@.len(),
            i + k <= t@.len(),
            wordish_run(t@, i as int) == k + wordish_run(t@, i + k),
        decreases t@.len() - i - k,
    {
        k = k + 1;
    }
    k
}

} // verus!
