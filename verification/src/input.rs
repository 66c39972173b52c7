//! How a line typed at a prompt is read: a yes/no answer, or a password
//! length with a lower bound.
//!
//! A line is first trimmed of the white space around it. An answer is then
//! one letter, `y` or `n` in either case. A length is a decimal integer, an
//! optional sign and one or more digits, of any size: no upper bound is set
//! on it. Only a length that a `usize` cannot hold is turned away, with an
//! error of its own.

use crate::alphabet::str_chars;
use vstd::prelude::*;

verus! {

/// Whether `c` is white space: a character with the Unicode property
/// `White_Space`.
pub open spec fn whitespace(c: char) -> bool {
    ||| '\u{9}' <= c <= '\u{d}'
    ||| c == ' '
    ||| c == '\u{85}'
    ||| c == '\u{a0}'
    ||| c == '\u{1680}'
    ||| '\u{2000}' <= c <= '\u{200a}'
    ||| c == '\u{2028}'
    ||| c == '\u{2029}'
    ||| c == '\u{202f}'
    ||| c == '\u{205f}'
    ||| c == '\u{3000}'
}

/// `text` without the white space at its start.
pub open spec fn trimmed_start(text: Seq<char>) -> Seq<char>
    decreases text.len(),
{
    if text.len() > 0 && whitespace(text.first()) {
        trimmed_start(text.drop_first())
    } else {
        text
    }
}

/// `text` without the white space at its end.
pub open spec fn trimmed_end(text: Seq<char>) -> Seq<char>
    decreases text.len(),
{
    if text.len() > 0 && whitespace(text.last()) {
        trimmed_end(text.drop_last())
    } else {
        text
    }
}

/// `text` without the white space at its start and at its end.
pub open spec fn trimmed(text: Seq<char>) -> Seq<char> {
    trimmed_end(trimmed_start(text))
}

/// What a line answers to a yes/no question: yes for `y`, no for `n`, in
/// either case and with any white space around it; nothing for any other line.
pub open spec fn yes_no_answer(line: Seq<char>) -> Option<bool> {
    let token = trimmed(line);
    if token.len() != 1 {
        None
    } else if token[0] == 'y' || token[0] == 'Y' {
        Some(true)
    } else if token[0] == 'n' || token[0] == 'N' {
        Some(false)
    } else {
        None
    }
}

/// Whether `c` is a decimal digit.
pub open spec fn is_digit(c: char) -> bool {
    '0' <= c <= '9'
}

/// The value of a decimal digit.
pub open spec fn digit_value(c: char) -> nat
    recommends
        is_digit(c),
{
    (c as int - '0' as int) as nat
}

/// The number that a sequence of decimal digits writes.
pub open spec fn decimal_value(digits: Seq<char>) -> nat
    decreases digits.len(),
{
    if digits.len() == 0 {
        0
    } else {
        10 * decimal_value(digits.drop_last()) + digit_value(digits.last())
    }
}

/// Whether `text` starts with a sign.
pub open spec fn has_sign(text: Seq<char>) -> bool {
    text.len() > 0 && (text[0] == '+' || text[0] == '-')
}

/// `text` without its sign, if it has one.
pub open spec fn unsigned_part(text: Seq<char>) -> Seq<char> {
    if has_sign(text) {
        text.subrange(1, text.len() as int)
    } else {
        text
    }
}

/// The integer that `text` writes: an optional sign and then one or more
/// decimal digits, nothing else. It may be of any size. Any other text writes
/// no integer.
pub open spec fn integer_value(text: Seq<char>) -> Option<int> {
    let digits = unsigned_part(text);
    let magnitude = decimal_value(digits) as int;
    if digits.len() > 0 && (forall|i: int| 0 <= i < digits.len() ==> is_digit(#[trigger] digits[i])) {
        if has_sign(text) && text[0] == '-' {
            Some(-magnitude)
        } else {
            Some(magnitude)
        }
    } else {
        None
    }
}

/// An integer as far as a length needs it: below zero, held by a `usize`, or
/// beyond what a `usize` holds.
#[derive(Clone, Copy, Debug, PartialEq, Eq, Structural)]
pub enum Number {
    /// An integer below zero.
    Negative,
    /// An integer from zero to `usize::MAX`.
    Natural(usize),
    /// An integer above `usize::MAX`.
    Beyond,
}

/// Where the integer `value` falls.
pub open spec fn number_of(value: int) -> Number {
    if value < 0 {
        Number::Negative
    } else if value > usize::MAX {
        Number::Beyond
    } else {
        Number::Natural(value as usize)
    }
}

/// What `text` reads as: where its integer falls, if it writes one.
pub open spec fn number_read(text: Seq<char>) -> Option<Number> {
    match integer_value(text) {
        None => None,
        Some(value) => Some(number_of(value)),
    }
}

/// Why a line gives no password length.
#[derive(Clone, Copy, Debug, PartialEq, Eq, Structural)]
pub enum LengthError {
    /// The line writes no integer.
    NotANumber,
    /// The line writes an integer under the minimum.
    BelowMinimum,
    /// The line writes an integer that is more than `usize::MAX`, the most
    /// that this machine can count.
    TooLarge,
}

/// What a line answers to the question for a length of at least
/// `min_length`: every integer from `min_length` to `usize::MAX` is accepted.
pub open spec fn length_answer(line: Seq<char>, min_length: usize) -> Result<usize, LengthError> {
    match integer_value(trimmed(line)) {
        None => Err(LengthError::NotANumber),
        Some(value) => if value < min_length {
            Err(LengthError::BelowMinimum)
        } else if value > usize::MAX {
            Err(LengthError::TooLarge)
        } else {
            Ok(value as usize)
        },
    }
}

/// Whether `c` is white space.
pub fn is_whitespace(c: char) -> (found: bool)
    ensures
        found == whitespace(c),
{
    ('\u{9}' <= c && c <= '\u{d}') || c == ' ' || c == '\u{85}' || c == '\u{a0}' || c
        == '\u{1680}' || ('\u{2000}' <= c && c <= '\u{200a}') || c == '\u{2028}' || c
        == '\u{2029}' || c == '\u{202f}' || c == '\u{205f}' || c == '\u{3000}'
}

/// The characters of `text` without the white space at its start and at its
/// end.
pub fn trim(text: &Vec<char>) -> (token: Vec<char>)
    ensures
        token@ == trimmed(text@),
{
    let n: usize = text.len();
    let mut start: usize = 0;
    assert(text@.subrange(0, n as int) =~= text@);
    while start < n && is_whitespace(text[start])
        invariant
            n == text@.len(),
            start <= n,
            trimmed_start(text@) == trimmed_start(text@.subrange(start as int, n as int)),
        decreases n - start,
    {
        assert(text@.subrange(start as int, n as int).drop_first() =~= text@.subrange(
            start + 1,
            n as int,
        ));
        start = start + 1;
    }
    assert(trimmed_start(text@) == text@.subrange(start as int, n as int));
    let mut end: usize = n;
    while end > start && is_whitespace(text[end - 1])
        invariant
            n == text@.len(),
            start <= end <= n,
            trimmed(text@) == trimmed_end(text@.subrange(start as int, end as int)),
        decreases end - start,
    {
        assert(text@.subrange(start as int, end as int).drop_last() =~= text@.subrange(
            start as int,
            end - 1,
        ));
        end = end - 1;
    }
    assert(trimmed(text@) == text@.subrange(start as int, end as int));
    let mut token: Vec<char> = Vec::new();
    let mut i: usize = start;
    while i < end
        invariant
            start <= i <= end <= n,
            n == text@.len(),
            token@ == text@.subrange(start as int, i as int),
        decreases end - i,
    {
        token.push(text[i]);
        assert(token@ =~= text@.subrange(start as int, i + 1));
        i = i + 1;
    }
    token
}

/// White space at the start is dropped up to the first character that is
/// none.
pub proof fn lemma_trimmed_start_at(text: Seq<char>, from: int)
    requires
        0 <= from <= text.len(),
        forall|i: int| 0 <= i < from ==> whitespace(#[trigger] text[i]),
        from < text.len() ==> !whitespace(text[from]),
    ensures
        trimmed_start(text) == text.subrange(from, text.len() as int),
    decreases from,
{
    if from == 0 {
        assert(text.subrange(0, text.len() as int) =~= text);
    } else {
        let rest = text.drop_first();
        assert(whitespace(text[0]));
        assert forall|i: int| 0 <= i < from - 1 implies whitespace(#[trigger] rest[i]) by {
            assert(rest[i] == text[i + 1]);
        }
        lemma_trimmed_start_at(rest, from - 1);
        assert(rest.subrange(from - 1, rest.len() as int) =~= text.subrange(
            from,
            text.len() as int,
        ));
    }
}

/// White space at the end is dropped back to the last character that is
/// none.
pub proof fn lemma_trimmed_end_at(text: Seq<char>, to: int)
    requires
        0 <= to <= text.len(),
        forall|i: int| to <= i < text.len() ==> whitespace(#[trigger] text[i]),
        0 < to ==> !whitespace(text[to - 1]),
    ensures
        trimmed_end(text) == text.subrange(0, to),
    decreases text.len() - to,
{
    if to == text.len() {
        assert(text.subrange(0, to) =~= text);
    } else {
        let rest = text.drop_last();
        assert(whitespace(text[text.len() - 1]));
        assert forall|i: int| to <= i < rest.len() implies whitespace(#[trigger] rest[i]) by {
            assert(rest[i] == text[i]);
        }
        lemma_trimmed_end_at(rest, to);
        assert(rest.subrange(0, to) =~= text.subrange(0, to));
    }
}

/// Trimming keeps exactly the stretch from the first to the last character
/// that is no white space; of a text that is all white space it keeps
/// nothing.
pub proof fn lemma_trimmed_is_stretch(text: Seq<char>, from: int, to: int)
    requires
        0 <= from <= to <= text.len(),
        forall|i: int| 0 <= i < from ==> whitespace(#[trigger] text[i]),
        forall|i: int| to <= i < text.len() ==> whitespace(#[trigger] text[i]),
        from < to ==> !whitespace(text[from]) && !whitespace(text[to - 1]),
    ensures
        trimmed(text) == text.subrange(from, to),
{
    let n = text.len() as int;
    if from < to {
        lemma_trimmed_start_at(text, from);
        let tail = text.subrange(from, n);
        assert forall|i: int| to - from <= i < tail.len() implies whitespace(
            #[trigger] tail[i],
        ) by {
            assert(tail[i] == text[i + from]);
        }
        lemma_trimmed_end_at(tail, to - from);
        assert(tail.subrange(0, to - from) =~= text.subrange(from, to));
    } else {
        lemma_trimmed_start_at(text, n);
        let tail = text.subrange(n, n);
        lemma_trimmed_end_at(tail, 0);
        assert(tail.subrange(0, 0) =~= text.subrange(from, to));
    }
}

/// Reads the answer to a yes/no question.
pub fn parse_yes_no(line: &str) -> (answer: Option<bool>)
    ensures
        answer == yes_no_answer(line@),
{
    let token = trim(&str_chars(line));
    if token.len() != 1 {
        None
    } else if token[0] == 'y' || token[0] == 'Y' {
        Some(true)
    } else if token[0] == 'n' || token[0] == 'N' {
        Some(false)
    } else {
        None
    }
}

/// Reads a decimal integer of any size.
pub fn parse_integer(text: &Vec<char>) -> (number: Option<Number>)
    ensures
        number == number_read(text@),
{
    let n: usize = text.len();
    if n == 0 {
        return None;
    }
    let negative: bool = text[0] == '-';
    let start: usize = if text[0] == '+' || text[0] == '-' {
        1
    } else {
        0
    };
    if start == n {
        return None;
    }
    let ghost digits = unsigned_part(text@);
    assert(digits =~= text@.subrange(start as int, n as int));
    let mut magnitude: usize = 0;
    let mut over: bool = false;
    let mut i: usize = start;
    while i < n
        invariant
            start <= i <= n,
            n == text@.len(),
            digits == unsigned_part(text@),
            digits == text@.subrange(start as int, n as int),
            negative == (has_sign(text@) && text@[0] == '-'),
            forall|k: int| 0 <= k < i - start ==> is_digit(#[trigger] digits[k]),
            !over ==> magnitude == decimal_value(digits.subrange(0, i - start)),
            over ==> decimal_value(digits.subrange(0, i - start)) > usize::MAX,
        decreases n - i,
    {
        let c: char = text[i];
        if !('0' <= c && c <= '9') {
            assert(digits[i - start] == c);
            return None;
        }
        let digit: usize = (c as u32 - '0' as u32) as usize;
        proof {
            let longer = digits.subrange(0, i - start + 1);
            assert(longer.drop_last() =~= digits.subrange(0, i - start));
            assert(longer.last() == c);
            assert(digit == digit_value(c));
        }
        if !over {
            if magnitude > (usize::MAX - digit) / 10 {
                over = true;
            } else {
                magnitude = magnitude * 10 + digit;
            }
        }
        i = i + 1;
    }
    assert(digits.subrange(0, n - start) =~= digits);
    if negative {
        if over || magnitude > 0 {
            Some(Number::Negative)
        } else {
            Some(Number::Natural(0))
        }
    } else if over {
        Some(Number::Beyond)
    } else {
        Some(Number::Natural(magnitude))
    }
}

/// Decides on what was read for a length: it must be an integer of at least
/// `min_length`, and one that a `usize` holds.
pub fn check_length(read: Option<Number>, min_length: usize) -> (answer: Result<
    usize,
    LengthError,
>)
    ensures
        answer == match read {
            None => Err::<usize, LengthError>(LengthError::NotANumber),
            Some(Number::Negative) => Err::<usize, LengthError>(LengthError::BelowMinimum),
            Some(Number::Natural(value)) => if value < min_length {
                Err::<usize, LengthError>(LengthError::BelowMinimum)
            } else {
                Ok::<usize, LengthError>(value)
            },
            Some(Number::Beyond) => Err::<usize, LengthError>(LengthError::TooLarge),
        },
{
    match read {
        None => Err(LengthError::NotANumber),
        Some(Number::Negative) => Err(LengthError::BelowMinimum),
        Some(Number::Natural(value)) => if value < min_length {
            Err(LengthError::BelowMinimum)
        } else {
            Ok(value)
        },
        Some(Number::Beyond) => Err(LengthError::TooLarge),
    }
}

/// Reads the answer to the question for a length of at least `min_length`.
/// No upper bound is set: every integer from `min_length` up to `usize::MAX`
/// is returned as it is written.
pub fn parse_length(line: &str, min_length: usize) -> (answer: Result<usize, LengthError>)
    ensures
        answer == length_answer(line@, min_length),
{
    let token = trim(&str_chars(line));
    check_length(parse_integer(&token), min_length)
}

/// Every integer from the minimum to `usize::MAX` is accepted as a length,
/// whatever white space stands around it.
pub proof fn lemma_length_accepted(line: Seq<char>, min_length: usize, value: int)
    requires
        integer_value(trimmed(line)) == Some(value),
        min_length <= value <= usize::MAX,
    ensures
        length_answer(line, min_length) == Ok::<usize, LengthError>(value as usize),
{
}

} // verus!
