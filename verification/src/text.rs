//! Normalising a typed line: trimming white space and recognising the exit
//! word.

use vstd::prelude::*;
use vstd::string::{StrSliceExecFns, StringSliceAdditionalSpecFns};
use vstd::utf8::encode_utf8;

verus! {

/// A text has at most as many characters as its UTF-8 encoding has bytes.
pub proof fn lemma_chars_at_most_bytes(s: Seq<char>)
    ensures
        s.len() <= encode_utf8(s).len(),
    decreases s.len(),
{
    if s.len() > 0 {
        lemma_chars_at_most_bytes(s.drop_first());
    }
}

/// The length of `s` in bytes, which bounds its length in characters.
pub fn byte_len(s: &str) -> (n: usize)
    ensures
        n == s.spec_bytes().len(),
        s@.len() <= n,
{
    let n = s.as_bytes().len();
    proof {
        lemma_chars_at_most_bytes(s@);
    }
    n
}

/// What `char::is_whitespace` answers for `c`: whether `c` has the Unicode
/// property White_Space.
pub uninterp spec fn white_space(c: char) -> bool;

/// Asks `char::is_whitespace` about `c`.
///
/// Trusted, not proved: the answer depends on the character alone, which is
/// why it can carry the name [`white_space`]. Nothing else is claimed of it.
#[verifier::external_body]
fn is_whitespace(c: char) -> (b: bool)
    ensures
        b == white_space(c),
{
    c.is_whitespace()
}

/// The index of the first character of `s` at or after `from` that is not
/// white space, or the length of `s` where there is none.
pub open spec fn first_mark(s: Seq<char>, from: int) -> int
    decreases s.len() - from,
{
    if from >= s.len() {
        s.len() as int
    } else if !white_space(s[from]) {
        from
    } else {
        first_mark(s, from + 1)
    }
}

/// One past the index of the last character of `s` before `to` that is not
/// white space, or 0 where there is none.
pub open spec fn last_mark(s: Seq<char>, to: int) -> int
    decreases to,
{
    if to <= 0 {
        0
    } else if !white_space(s[to - 1]) {
        to
    } else {
        last_mark(s, to - 1)
    }
}

/// `s` without the white space at its start and at its end.
pub open spec fn trimmed(s: Seq<char>) -> Seq<char> {
    let from = first_mark(s, 0);
    let to = last_mark(s, s.len() as int);
    if from < to {
        s.subrange(from, to)
    } else {
        Seq::empty()
    }
}

/// Strips leading and trailing white space from `line`.
pub fn trim(line: &str) -> (text: &str)
    ensures
        text@ == trimmed(line@),
{
    let limit = byte_len(line);
    let mut start: usize = 0;
    let mut end: usize = 0;
    let mut i: usize = 0;
    for c in it: line.chars()
        invariant
            it.seq() == line@,
            line@.len() <= limit,
            i == it.index(),
            end == last_mark(line@, i as int),
            end <= i,
            end == 0 ==> start == 0 && first_mark(line@, 0) == first_mark(line@, i as int),
            end > 0 ==> start < end && start == first_mark(line@, 0),
    {
        if !is_whitespace(c) {
            if end == 0 {
                start = i;
            }
            end = i + 1;
        }
        i += 1;
    }
    line.substring_char(start, end)
}

/// Up to `from`, `first_mark` passes over white space alone.
proof fn lemma_first_mark(s: Seq<char>, from: int)
    requires
        0 <= from <= s.len(),
    ensures
        from <= first_mark(s, from) <= s.len(),
        first_mark(s, from) < s.len() ==> !white_space(s[first_mark(s, from)]),
        forall|k: int| from <= k < first_mark(s, from) ==> white_space(#[trigger] s[k]),
    decreases s.len() - from,
{
    if from < s.len() && white_space(s[from]) {
        lemma_first_mark(s, from + 1);
    }
}

/// Down to `to`, `last_mark` passes over white space alone.
proof fn lemma_last_mark(s: Seq<char>, to: int)
    requires
        0 <= to <= s.len(),
    ensures
        0 <= last_mark(s, to) <= to,
        last_mark(s, to) > 0 ==> !white_space(s[last_mark(s, to) - 1]),
        forall|k: int| last_mark(s, to) <= k < to ==> white_space(#[trigger] s[k]),
    decreases to,
{
    if to > 0 && white_space(s[to - 1]) {
        lemma_last_mark(s, to - 1);
    }
}

/// What trimming leaves is a stretch of the text that has only white space
/// before it and after it, and that neither starts nor ends with white space.
pub proof fn lemma_trimmed_is_the_core(s: Seq<char>)
    ensures
        exists|from: int, to: int|
            {
                &&& 0 <= from <= to <= s.len()
                &&& #[trigger] s.subrange(from, to) == trimmed(s)
                &&& forall|k: int| 0 <= k < from ==> white_space(#[trigger] s[k])
                &&& forall|k: int| to <= k < s.len() ==> white_space(#[trigger] s[k])
                &&& from < to ==> !white_space(s[from]) && !white_space(s[to - 1])
            },
{
    let n = s.len() as int;
    let from = first_mark(s, 0);
    let to = last_mark(s, n);
    lemma_first_mark(s, 0);
    lemma_last_mark(s, n);
    if from < to {
        assert(s.subrange(from, to) == trimmed(s));
    } else {
        assert(s.subrange(n, n) =~= trimmed(s));
        assert forall|k: int| 0 <= k < n implies white_space(#[trigger] s[k]) by {
            if k >= from {
                assert(to <= k);
            }
        }
    }
}

/// Trimming a trimmed text changes nothing.
pub proof fn lemma_trimmed_idempotent(s: Seq<char>)
    ensures
        trimmed(trimmed(s)) == trimmed(s),
{
    let t = trimmed(s);
    lemma_first_mark(s, 0);
    lemma_last_mark(s, s.len() as int);
    if t.len() > 0 {
        assert(first_mark(t, 0) == 0);
        assert(last_mark(t, t.len() as int) == t.len());
        assert(t.subrange(0, t.len() as int) =~= t);
    }
}

/// `c` with an ASCII capital letter replaced by its small letter.
pub open spec fn ascii_lowercase(c: char) -> char {
    if 'A' <= c <= 'Z' {
        ((c as u32) + 32) as char
    } else {
        c
    }
}

/// Whether `a` and `b` are the same text up to the case of ASCII letters.
pub open spec fn eq_ignoring_ascii_case(a: Seq<char>, b: Seq<char>) -> bool {
    &&& a.len() == b.len()
    &&& forall|i: int| 0 <= i < a.len() ==> ascii_lowercase(#[trigger] a[i]) == ascii_lowercase(b[i])
}

/// The word that ends the session.
pub open spec fn exit_word() -> Seq<char> {
    seq!['q', 'u', 'i', 't']
}

/// Whether `s` is the exit word in any mix of capital and small letters.
pub open spec fn exit_command(s: Seq<char>) -> bool {
    eq_ignoring_ascii_case(s, exit_word())
}

/// Whether `c` is the small letter `small` or its capital.
fn is_letter(c: char, small: char) -> (b: bool)
    requires
        'a' <= small <= 'z',
    ensures
        b == (ascii_lowercase(c) == small),
{
    c == small || ('A' <= c && c <= 'Z' && c as u32 + 32 == small as u32)
}

/// Decides whether `text` is the exit word, whatever the case of its letters.
pub fn is_exit_command(text: &str) -> (b: bool)
    ensures
        b == exit_command(text@),
{
    let mut matched: usize = 0;
    for c in it: text.chars()
        invariant
            it.seq() == text@,
            matched == it.index(),
            matched <= 4,
            forall|j: int| 0 <= j < matched ==> ascii_lowercase(#[trigger] text@[j]) == exit_word()[j],
    {
        let expected = match matched {
            0 => 'q',
            1 => 'u',
            2 => 'i',
            3 => 't',
            _ => {
                return false;
            },
        };
        if !is_letter(c, expected) {
            return false;
        }
        matched += 1;
    }
    matched == 4
}

} // verus!
