//! The expression validator: a single left-to-right scan that accepts exactly
//! the texts described by [`valid_expression`].
//!
//! The grammar knows digits, the operators `+ - * /`, parentheses and spaces.
//! Spaces are transparent: a character is judged against the last character
//! before it that is not a space.

use vstd::prelude::*;
use vstd::seq_lib::to_multiset_build;
use crate::text::byte_len;

verus! {

/// A decimal digit, `0` to `9`.
pub open spec fn is_digit(c: char) -> bool {
    '0' <= c <= '9'
}

/// One of the four binary operators.
pub open spec fn is_operator(c: char) -> bool {
    c == '+' || c == '-' || c == '*' || c == '/'
}

/// The characters an expression may be made of.
pub open spec fn in_alphabet(c: char) -> bool {
    is_digit(c) || is_operator(c) || c == '(' || c == ')' || c == ' '
}

/// How often `c` occurs among the first `n` characters of `s`.
pub open spec fn occurrences(s: Seq<char>, c: char, n: int) -> nat
    decreases n,
{
    if n <= 0 {
        0
    } else if s[n - 1] == c {
        occurrences(s, c, n - 1) + 1
    } else {
        occurrences(s, c, n - 1)
    }
}

/// Whether a digit stands among the first `n` characters of `s`.
pub open spec fn digit_before(s: Seq<char>, n: int) -> bool {
    exists|j: int| 0 <= j < n && is_digit(#[trigger] s[j])
}

/// The last character other than a space among the first `n` characters of
/// `s`, or `None` where there is none yet.
pub open spec fn last_token(s: Seq<char>, n: int) -> Option<char>
    decreases n,
{
    if n <= 0 {
        None
    } else if s[n - 1] != ' ' {
        Some(s[n - 1])
    } else {
        last_token(s, n - 1)
    }
}

/// Whether `t` is what an operand ends with: a digit or a closing parenthesis.
pub open spec fn ends_operand(t: Option<char>) -> bool {
    t matches Some(c) && (is_digit(c) || c == ')')
}

/// Whether the character at index `i` of `s` may stand there, given the
/// characters before it.
///
/// An operator must follow an operand. A closing parenthesis must have an
/// open one to match, a digit somewhere before it, and something other than
/// `(` right before it. Digits, `(` and spaces may stand anywhere; no other
/// character may stand at all.
pub open spec fn admissible_at(s: Seq<char>, i: int) -> bool {
    let c = s[i];
    if is_operator(c) {
        ends_operand(last_token(s, i))
    } else if c == ')' {
        &&& occurrences(s, ')', i) < occurrences(s, '(', i)
        &&& digit_before(s, i)
        &&& last_token(s, i) != Some('(')
    } else {
        is_digit(c) || c == '(' || c == ' '
    }
}

/// The well-formed expressions: every character is admissible where it
/// stands, the parentheses balance, a digit occurs, and the text ends with an
/// operand.
pub open spec fn valid_expression(s: Seq<char>) -> bool {
    &&& forall|i: int| 0 <= i < s.len() ==> admissible_at(s, i)
    &&& occurrences(s, '(', s.len() as int) == occurrences(s, ')', s.len() as int)
    &&& digit_before(s, s.len() as int)
    &&& ends_operand(last_token(s, s.len() as int))
}

/// Whether `c` is a decimal digit.
fn digit(c: char) -> (b: bool)
    ensures
        b == is_digit(c),
{
    '0' <= c && c <= '9'
}

/// Whether `last` is a digit or a closing parenthesis.
fn after_operand(last: Option<char>) -> (b: bool)
    ensures
        b == ends_operand(last),
{
    match last {
        Some(c) => digit(c) || c == ')',
        None => false,
    }
}

/// Decides whether `expr` is a well-formed arithmetic expression.
pub fn is_valid_arithmetic(expr: &str) -> (accepted: bool)
    ensures
        accepted == valid_expression(expr@),
{
    let limit = byte_len(expr);
    let mut open: usize = 0;
    let mut last: Option<char> = None;
    let mut has_digit = false;
    for c in it: expr.chars()
        invariant
            it.seq() == expr@,
            expr@.len() <= limit,
            forall|j: int| 0 <= j < it.index() ==> admissible_at(expr@, j),
            open == occurrences(expr@, '(', it.index()) - occurrences(expr@, ')', it.index()),
            occurrences(expr@, '(', it.index()) <= it.index(),
            last == last_token(expr@, it.index()),
            has_digit == digit_before(expr@, it.index()),
    {
        match c {
            '0'..='9' => {
                has_digit = true;
            },
            '+' | '-' | '*' | '/' => {
                if !after_operand(last) {
                    assert(!admissible_at(expr@, it.index()));
                    return false;
                }
            },
            '(' => {
                open += 1;
            },
            ')' => {
                if open == 0 || !has_digit || last == Some('(') {
                    assert(!admissible_at(expr@, it.index()));
                    return false;
                }
                open -= 1;
            },
            ' ' => {},
            _ => {
                assert(!admissible_at(expr@, it.index()));
                return false;
            },
        }
        if c != ' ' {
            last = Some(c);
        }
    }
    open == 0 && has_digit && after_operand(last)
}

/// `occurrences` agrees with the multiset of the characters it ranges over.
pub proof fn lemma_occurrences_count(s: Seq<char>, c: char, n: int)
    requires
        0 <= n <= s.len(),
    ensures
        occurrences(s, c, n) == s.take(n).to_multiset().count(c),
    decreases n,
{
    broadcast use vstd::multiset::group_multiset_axioms;

    if n == 0 {
        s.take(0).to_multiset_ensures();
    } else {
        lemma_occurrences_count(s, c, n - 1);
        assert(s.take(n) =~= s.take(n - 1).push(s[n - 1]));
        to_multiset_build(s.take(n - 1), s[n - 1]);
    }
}

/// A text made of digits alone holds no other character.
proof fn lemma_digits_hold_no_other(s: Seq<char>, c: char, n: int)
    requires
        0 <= n <= s.len(),
        forall|i: int| 0 <= i < s.len() ==> is_digit(#[trigger] s[i]),
        !is_digit(c),
    ensures
        occurrences(s, c, n) == 0,
    decreases n,
{
    if n > 0 {
        lemma_digits_hold_no_other(s, c, n - 1);
    }
}

/// Every text that is not empty and made of digits alone is accepted.
pub proof fn lemma_digits_accepted(s: Seq<char>)
    requires
        s.len() > 0,
        forall|i: int| 0 <= i < s.len() ==> is_digit(#[trigger] s[i]),
    ensures
        valid_expression(s),
{
    let n = s.len() as int;
    lemma_digits_hold_no_other(s, '(', n);
    lemma_digits_hold_no_other(s, ')', n);
    assert(is_digit(s[0]));
    assert(is_digit(s[n - 1]));
    assert forall|i: int| 0 <= i < s.len() implies admissible_at(s, i) by {
        assert(is_digit(s[i]));
    }
}

/// An accepted text holds as many opening as closing parentheses.
pub proof fn lemma_accepted_balanced(s: Seq<char>)
    requires
        valid_expression(s),
    ensures
        occurrences(s, '(', s.len() as int) == occurrences(s, ')', s.len() as int),
        s.to_multiset().count('(') == s.to_multiset().count(')'),
{
    let n = s.len() as int;
    lemma_occurrences_count(s, '(', n);
    lemma_occurrences_count(s, ')', n);
    assert(s.take(n) =~= s);
}

/// While an accepted text is read from left to right, the closing
/// parentheses never outnumber the opening ones.
pub proof fn lemma_accepted_never_overclosed(s: Seq<char>, n: int)
    requires
        valid_expression(s),
        0 <= n <= s.len(),
    ensures
        occurrences(s, ')', n) <= occurrences(s, '(', n),
    decreases n,
{
    if n > 0 {
        lemma_accepted_never_overclosed(s, n - 1);
        assert(admissible_at(s, n - 1));
    }
}

/// An accepted text is made of digits, operators, parentheses and spaces
/// alone; in particular it is ASCII and holds no NUL character.
pub proof fn lemma_accepted_in_alphabet(s: Seq<char>)
    requires
        valid_expression(s),
    ensures
        forall|i: int| 0 <= i < s.len() ==> in_alphabet(#[trigger] s[i]),
        forall|i: int| 0 <= i < s.len() ==> '\0' < #[trigger] s[i] <= '\u{7f}',
{
    assert forall|i: int| 0 <= i < s.len() implies in_alphabet(#[trigger] s[i]) by {
        assert(admissible_at(s, i));
    }
}

/// Validation depends on the text alone: whatever two runs on the same text
/// return, they return the same.
pub proof fn lemma_validation_repeatable(a: &str, b: &str, first: bool, second: bool)
    requires
        a@ == b@,
        call_ensures(is_valid_arithmetic, (a,), first),
        call_ensures(is_valid_arithmetic, (b,), second),
    ensures
        first == second,
{
}

} // verus!
