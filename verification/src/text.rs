//! String ordering and date-prefix helpers.
//!
//! Timestamps are carried as ISO-like strings ("YYYY-MM-DD HH:MM:SS"), so a
//! date-range filter is a lexicographic comparison and the calendar date of a
//! timestamp is its first ten characters.

use vstd::prelude::*;

verus! {

/// Lexicographic order on character sequences, by scalar value.
pub open spec fn lex_le(a: Seq<char>, b: Seq<char>) -> bool
    decreases a.len(),
{
    if a.len() == 0 {
        true
    } else if b.len() == 0 {
        false
    } else if a[0] == b[0] {
        lex_le(a.skip(1), b.skip(1))
    } else {
        a[0] < b[0]
    }
}

/// The calendar-date portion of a timestamp string: its first ten characters
/// (the whole string when it is shorter).
pub open spec fn date_of(s: Seq<char>) -> Seq<char> {
    if s.len() >= 10 {
        s.subrange(0, 10)
    } else {
        s
    }
}

/// Whether a timestamp lies in the inclusive range `[start, end]`.
pub open spec fn in_date_range(t: Seq<char>, start: Seq<char>, end: Seq<char>) -> bool {
    lex_le(start, t) && lex_le(t, end)
}

/// The lexicographic order is total.
pub proof fn lemma_lex_le_total(a: Seq<char>, b: Seq<char>)
    ensures
        lex_le(a, b) || lex_le(b, a),
    decreases a.len(),
{
    if a.len() > 0 && b.len() > 0 && a[0] == b[0] {
        lemma_lex_le_total(a.skip(1), b.skip(1));
    }
}

/// The lexicographic order is transitive.
pub proof fn lemma_lex_le_trans(a: Seq<char>, b: Seq<char>, c: Seq<char>)
    requires
        lex_le(a, b),
        lex_le(b, c),
    ensures
        lex_le(a, c),
    decreases a.len(),
{
    if a.len() > 0 && b.len() > 0 && c.len() > 0 {
        if a[0] == b[0] && b[0] == c[0] {
            lemma_lex_le_trans(a.skip(1), b.skip(1), c.skip(1));
        }
    }
}

pub fn str_lex_le(a: &str, b: &str) -> (r: bool)
    ensures
        r == lex_le(a@, b@),
{
    let a_len = a.unicode_len();
    let b_len = b.unicode_len();
    let mut i: usize = 0;
    proof {
        assert(a@.skip(0) =~= a@);
        assert(b@.skip(0) =~= b@);
    }
    loop
        invariant
            a_len == a@.len(),
            b_len == b@.len(),
            0 <= i <= a_len,
            i <= b_len,
            lex_le(a@, b@) == lex_le(a@.skip(i as int), b@.skip(i as int)),
        decreases a_len - i,
    {
        if i == a_len {
            return true;
        }
        if i == b_len {
            return false;
        }
        let ca = a.get_char(i);
        let cb = b.get_char(i);
        if ca != cb {
            return (ca as u32) < (cb as u32);
        }
        proof {
            assert(a@.skip(i as int).skip(1) =~= a@.skip(i + 1));
            assert(b@.skip(i as int).skip(1) =~= b@.skip(i + 1));
        }
        i = i + 1;
    }
}

pub fn str_eq(a: &str, b: &str) -> (r: bool)
    ensures
        r == (a@ == b@),
{
    let sa = a.to_owned();
    let sb = b.to_owned();
    sa == sb
}

/// The date portion of a timestamp string, as an owned string.
pub fn date_of_str(s: &str) -> (r: String)
    ensures
        r@ == date_of(s@),
{
    let n = s.unicode_len();
    if n >= 10 {
        let d = s.substring_char(0, 10);
        d.to_owned()
    } else {
        s.to_owned()
    }
}

} // verus!
