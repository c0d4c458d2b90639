//! Reading the value of a calendar property line such as `DTSTART:20200605T190000`.
//!
//! The name is skipped by its length in bytes of UTF-8, so the value starts at
//! that byte offset of the trimmed line, which must fall between characters.
use crate::search::{trim, trim_bounds};
use crate::text::chars_of;
use vstd::prelude::*;

verus! {

/// How many bytes `c` takes in UTF-8.
pub open spec fn char_utf8_len(c: char) -> int {
    let u = c as u32;
    if u < 0x80 {
        1
    } else if u < 0x800 {
        2
    } else if u < 0x10000 {
        3
    } else {
        4
    }
}

/// How many bytes `s` takes in UTF-8.
pub open spec fn utf8_len(s: Seq<char>) -> int
    decreases s.len(),
{
    if s.len() == 0 {
        0
    } else {
        utf8_len(s.drop_last()) + char_utf8_len(s.last())
    }
}

/// The first `k` characters of `s` take up exactly `bytes` bytes.
pub open spec fn prefix_bytes(s: Seq<char>, k: int, bytes: int) -> bool {
    0 <= k <= s.len() && utf8_len(s.subrange(0, k)) == bytes
}

/// Byte offset `bytes` of the trimmed line lies between characters.
pub open spec fn trimmed_boundary(line: Seq<char>, bytes: int) -> bool {
    exists|k: int| prefix_bytes(trim(line), k, bytes)
}

/// `v` is what follows byte offset `bytes` of the trimmed line.
pub open spec fn value_after(line: Seq<char>, bytes: int, v: Seq<char>) -> bool {
    forall|k: int|
        prefix_bytes(trim(line), k, bytes) ==> v == #[trigger] trim(line).subrange(
            k,
            trim(line).len() as int,
        )
}

proof fn lemma_prefix_step(s: Seq<char>, k: int)
    requires
        0 < k <= s.len(),
    ensures
        utf8_len(s.subrange(0, k)) == utf8_len(s.subrange(0, k - 1)) + char_utf8_len(s[k - 1]),
        1 <= char_utf8_len(s[k - 1]) <= 4,
{
    assert(s.subrange(0, k).drop_last() =~= s.subrange(0, k - 1));
}

/// Longer prefixes take more bytes.
proof fn lemma_prefix_grows(s: Seq<char>, k1: int, k2: int)
    requires
        0 <= k1 < k2 <= s.len(),
    ensures
        utf8_len(s.subrange(0, k1)) < utf8_len(s.subrange(0, k2)),
    decreases k2 - k1,
{
    lemma_prefix_step(s, k2);
    if k1 + 1 < k2 {
        lemma_prefix_grows(s, k1, k2 - 1);
    }
}

fn char_len(c: char) -> (n: u128)
    ensures
        n == char_utf8_len(c),
{
    let u = c as u32;
    if u < 0x80 {
        1
    } else if u < 0x800 {
        2
    } else if u < 0x10000 {
        3
    } else {
        4
    }
}

/// How many bytes `s` takes in UTF-8.
fn byte_len(s: &str) -> (n: u128)
    ensures
        n == utf8_len(s@),
        n <= 4 * (usize::MAX as int),
{
    let cs = chars_of(s);
    let len = cs.len();
    let mut n: u128 = 0;
    let mut i: usize = 0;
    assert(cs@.subrange(0, 0) =~= Seq::<char>::empty());
    while i < len
        invariant
            len == cs@.len(),
            i <= len,
            n == utf8_len(cs@.subrange(0, i as int)),
            n <= 4 * i,
        decreases len - i,
    {
        proof {
            lemma_prefix_step(cs@, i + 1);
        }
        n = n + char_len(cs[i]);
        i = i + 1;
    }
    assert(cs@.subrange(0, len as int) =~= cs@);
    n
}

/// What follows the name of `property` and `extra` more bytes in the trimmed line.
fn skip_trimmed<'a>(s: &'a str, property: &str, extra: u128) -> (r: &'a str)
    requires
        extra <= 12,
        trimmed_boundary(s@, utf8_len(property@) + extra),
    ensures
        value_after(s@, utf8_len(property@) + extra, r@),
{
    let t = chars_of(s);
    let (a, b) = trim_bounds(&t);
    let ghost tr = trim(s@);
    let goal = byte_len(property) + extra;
    let ghost k0 = choose|k: int| prefix_bytes(tr, k, goal as int);
    let mut acc: u128 = 0;
    let mut k: usize = 0;
    assert(tr.subrange(0, 0) =~= Seq::<char>::empty());
    while acc < goal && k < b - a
        invariant
            a <= b <= t@.len(),
            tr == t@.subrange(a as int, b as int),
            k <= b - a,
            acc == utf8_len(tr.subrange(0, k as int)),
            acc <= 4 * k,
            k > 0 ==> utf8_len(tr.subrange(0, k - 1)) < goal,
        decreases b - a - k,
    {
        proof {
            lemma_prefix_step(tr, k + 1);
        }
        acc = acc + char_len(t[a + k]);
        k = k + 1;
    }
    let r = s.substring_char(a + k, b);
    proof {
        if (k as int) < k0 {
            lemma_prefix_grows(tr, k as int, k0);
        } else if (k as int) > k0 {
            if k0 < k - 1 {
                lemma_prefix_grows(tr, k0, k - 1);
            }
        }
        assert(k == k0);
        assert forall|j: int| prefix_bytes(tr, j, goal as int) implies r@
            == #[trigger] tr.subrange(j, tr.len() as int) by {
            if j < k {
                lemma_prefix_grows(tr, j, k as int);
            } else if j > k {
                lemma_prefix_grows(tr, k as int, j);
            }
            assert(t@.subrange(a + k, b as int) =~= tr.subrange(j, tr.len() as int));
        }
    }
    r
}

/// The value of a property line `NAME:value`, named `property`: the trimmed
/// line after as many bytes as the name and the colon take.
pub fn parse_property<'a>(s: &'a str, property: &str) -> (r: &'a str)
    requires
        trimmed_boundary(s@, utf8_len(property@) + 1),
    ensures
        value_after(s@, utf8_len(property@) + 1, r@),
{
    skip_trimmed(s, property, 1)
}

/// The value of a date-only property line `NAME;VALUE=DATE:value`, named
/// `property`: the trimmed line after as many bytes as the name and
/// `;VALUE=DATE:` take.
pub fn parse_property_date_only<'a>(s: &'a str, property: &str) -> (r: &'a str)
    requires
        trimmed_boundary(s@, utf8_len(property@) + 12),
    ensures
        value_after(s@, utf8_len(property@) + 12, r@),
{
    skip_trimmed(s, property, 12)
}

} // verus!
