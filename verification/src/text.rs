//! The words shown at the terminal: questions, error messages and the line
//! that gives the password.

use crate::alphabet::CharacterClass;
use crate::builder::{push_char, GenerateError};
use crate::input::{decimal_value, digit_value, integer_value, is_digit, LengthError};
use vstd::prelude::*;

verus! {

/// The digit that writes `d`, a number under ten.
pub open spec fn digit_char(d: nat) -> char
    recommends
        d < 10,
{
    if d == 0 {
        '0'
    } else if d == 1 {
        '1'
    } else if d == 2 {
        '2'
    } else if d == 3 {
        '3'
    } else if d == 4 {
        '4'
    } else if d == 5 {
        '5'
    } else if d == 6 {
        '6'
    } else if d == 7 {
        '7'
    } else if d == 8 {
        '8'
    } else {
        '9'
    }
}

/// The decimal digits that write `n`, with no leading zero.
pub open spec fn decimal_digits(n: nat) -> Seq<char>
    decreases n,
{
    if n < 10 {
        seq![digit_char(n)]
    } else {
        decimal_digits(n / 10).push(digit_char(n % 10))
    }
}

/// The question that asks whether `class` shall be used.
pub open spec fn question_text(class: CharacterClass) -> Seq<char> {
    match class {
        CharacterClass::Lowercase => "Include lowercase letters? (y/n): "@,
        CharacterClass::Uppercase => "Include uppercase letters? (y/n): "@,
        CharacterClass::Digit => "Include numbers? (y/n): "@,
        CharacterClass::Special => "Include special characters? (y/n): "@,
    }
}

/// What is said of a line that answers neither yes nor no.
pub open spec fn invalid_answer_text() -> Seq<char> {
    "Invalid input! Please enter 'y' or 'n'."@
}

/// The question for a length of at least `min_length`.
pub open spec fn length_prompt_text(min_length: usize) -> Seq<char> {
    "Enter password length (minimum "@ + decimal_digits(min_length as nat) + "): "@
}

/// What is said of a line that gives no length: that it is no whole number,
/// or the bound that it missed.
pub open spec fn length_error_text(error: LengthError, min_length: usize) -> Seq<char> {
    match error {
        LengthError::NotANumber => "Invalid input! Please enter a whole number."@,
        LengthError::BelowMinimum => "Error: Password length must be at least "@ + decimal_digits(
            min_length as nat,
        ) + "."@,
        LengthError::TooLarge => "Error: Password length must be at most "@ + decimal_digits(
            usize::MAX as nat,
        ) + "."@,
    }
}

/// The last line of a run: the password, or the reason why there is none.
pub open spec fn outcome_text(outcome: Result<String, GenerateError>) -> Seq<char> {
    match outcome {
        Ok(password) => "Generated Password: "@ + password@,
        Err(error) => "Error: "@ + error.text(),
    }
}

/// The digit that writes `d`.
fn digit(d: usize) -> (c: char)
    requires
        d < 10,
    ensures
        c == digit_char(d as nat),
{
    if d == 0 {
        '0'
    } else if d == 1 {
        '1'
    } else if d == 2 {
        '2'
    } else if d == 3 {
        '3'
    } else if d == 4 {
        '4'
    } else if d == 5 {
        '5'
    } else if d == 6 {
        '6'
    } else if d == 7 {
        '7'
    } else if d == 8 {
        '8'
    } else {
        '9'
    }
}

/// Appends the decimal digits of `n` to `text`.
pub fn push_decimal(text: &mut String, n: usize)
    ensures
        final(text)@ == old(text)@ + decimal_digits(n as nat),
    decreases n,
{
    if n >= 10 {
        push_decimal(text, n / 10);
    }
    push_char(text, digit(n % 10));
    assert(text@ =~= old(text)@ + decimal_digits(n as nat));
}

/// The question that asks whether `class` shall be used.
pub fn question(class: CharacterClass) -> (text: &'static str)
    ensures
        text@ == question_text(class),
{
    match class {
        CharacterClass::Lowercase => "Include lowercase letters? (y/n): ",
        CharacterClass::Uppercase => "Include uppercase letters? (y/n): ",
        CharacterClass::Digit => "Include numbers? (y/n): ",
        CharacterClass::Special => "Include special characters? (y/n): ",
    }
}

/// What is said of a line that answers neither yes nor no.
pub fn invalid_answer_message() -> (text: &'static str)
    ensures
        text@ == invalid_answer_text(),
{
    "Invalid input! Please enter 'y' or 'n'."
}

/// The question for a length of at least `min_length`.
pub fn length_prompt(min_length: usize) -> (text: String)
    ensures
        text@ == length_prompt_text(min_length),
{
    let mut text = String::from_str("Enter password length (minimum ");
    push_decimal(&mut text, min_length);
    text.append("): ");
    text
}

/// What is said of a line that gives no length of at least `min_length`.
pub fn length_error_message(error: LengthError, min_length: usize) -> (text: String)
    ensures
        text@ == length_error_text(error, min_length),
{
    match error {
        LengthError::NotANumber => String::from_str("Invalid input! Please enter a whole number."),
        LengthError::BelowMinimum => {
            let mut text = String::from_str("Error: Password length must be at least ");
            push_decimal(&mut text, min_length);
            text.append(".");
            text
        },
        LengthError::TooLarge => {
            let mut text = String::from_str("Error: Password length must be at most ");
            push_decimal(&mut text, usize::MAX);
            text.append(".");
            text
        },
    }
}

/// The last line of a run: the password, or the reason why there is none.
pub fn outcome_line(outcome: &Result<String, GenerateError>) -> (text: String)
    ensures
        text@ == outcome_text(*outcome),
{
    match outcome {
        Ok(password) => {
            let mut text = String::from_str("Generated Password: ");
            text.append(password.as_str());
            text
        },
        Err(error) => {
            let mut text = String::from_str("Error: ");
            text.append(error.message());
            text
        },
    }
}

/// The digits written for a number are read back as that number: they are
/// all digits, and as an integer they have its value.
pub proof fn lemma_decimal_round_trip(n: nat)
    ensures
        decimal_digits(n).len() > 0,
        forall|i: int| 0 <= i < decimal_digits(n).len() ==> is_digit(#[trigger] decimal_digits(n)[i]),
        decimal_value(decimal_digits(n)) == n,
        integer_value(decimal_digits(n)) == Some(n as int),
    decreases n,
{
    let digits = decimal_digits(n);
    if n < 10 {
        assert(digits.drop_last() =~= Seq::<char>::empty());
        assert(decimal_value(digits.drop_last()) == 0);
        assert(digit_value(digit_char(n)) == n);
    } else {
        lemma_decimal_round_trip(n / 10);
        assert(digits.drop_last() =~= decimal_digits(n / 10));
        assert(digits.last() == digit_char(n % 10));
        assert(digit_value(digit_char(n % 10)) == n % 10);
    }
    assert(is_digit(digits[0]));
}

} // verus!
