use password_generator::alphabet::CharacterClass;
use password_generator::builder::{generate_password, GenerateError};
use password_generator::input::{parse_integer, parse_length, LengthError, Number};
use password_generator::selection::Selection;
use password_generator::text::{
    invalid_answer_message, length_error_message, length_prompt, outcome_line, push_decimal,
    question,
};

#[test]
fn questions_name_their_class() {
    assert_eq!(question(CharacterClass::Lowercase), "Include lowercase letters? (y/n): ");
    assert_eq!(question(CharacterClass::Uppercase), "Include uppercase letters? (y/n): ");
    assert_eq!(question(CharacterClass::Digit), "Include numbers? (y/n): ");
    assert_eq!(question(CharacterClass::Special), "Include special characters? (y/n): ");
}

#[test]
fn invalid_answer_has_its_message() {
    assert_eq!(invalid_answer_message(), "Invalid input! Please enter 'y' or 'n'.");
}

#[test]
fn length_prompt_embeds_the_minimum() {
    assert_eq!(length_prompt(1), "Enter password length (minimum 1): ");
    assert_eq!(length_prompt(4), "Enter password length (minimum 4): ");
    assert_eq!(length_prompt(120), "Enter password length (minimum 120): ");
}

#[test]
fn no_whole_number_has_its_message() {
    assert_eq!(
        length_error_message(LengthError::NotANumber, 3),
        "Invalid input! Please enter a whole number."
    );
    let error = parse_length("abc", 3).unwrap_err();
    assert_eq!(length_error_message(error, 3), "Invalid input! Please enter a whole number.");
}

#[test]
fn length_under_the_minimum_has_a_message_citing_it() {
    let error = parse_length("2", 3).unwrap_err();
    assert_eq!(length_error_message(error, 3), "Error: Password length must be at least 3.");
    assert_eq!(
        length_error_message(LengthError::BelowMinimum, 10),
        "Error: Password length must be at least 10."
    );
}

#[test]
fn length_over_the_machine_limit_has_a_message_citing_it() {
    assert_eq!(
        length_error_message(LengthError::TooLarge, 1),
        format!("Error: Password length must be at most {}.", usize::MAX)
    );
}

#[test]
fn decimal_digits_are_those_of_std() {
    let numbers = [0usize, 1, 9, 10, 11, 99, 100, 101, 4096, 1234567890, usize::MAX - 1, usize::MAX];
    for n in numbers {
        let mut text = String::from("n=");
        push_decimal(&mut text, n);
        assert_eq!(text, format!("n={}", n));
    }
}

#[test]
fn decimal_digits_are_read_back() {
    let numbers = [0usize, 7, 10, 305, 70000, usize::MAX];
    for n in numbers {
        let mut text = String::new();
        push_decimal(&mut text, n);
        let chars: Vec<char> = text.chars().collect();
        assert_eq!(parse_integer(&chars), Some(Number::Natural(n)));
        assert_eq!(parse_length(&text, 0), Ok(n));
    }
}

#[test]
fn outcome_line_gives_the_password() {
    assert_eq!(outcome_line(&Ok(String::from("p4$W"))), "Generated Password: p4$W");
    assert_eq!(outcome_line(&Ok(String::new())), "Generated Password: ");
    let digits = Selection::new(false, false, true, false);
    let line = outcome_line(&generate_password(&digits, 4));
    assert_eq!(line.chars().count(), 24);
    assert!(line.starts_with("Generated Password: "));
    assert!(line.chars().skip(20).all(|c| c.is_ascii_digit()));
}

#[test]
fn outcome_line_gives_the_error_and_no_password() {
    let none = Selection::new(false, false, false, false);
    let line = outcome_line(&generate_password(&none, 4));
    assert_eq!(line, "Error: You must select at least one character type!");
    assert!(!line.contains("Generated Password:"));
    assert_eq!(
        outcome_line(&Err(GenerateError::LengthExceedsPool)),
        format!("Error: {}", GenerateError::LengthExceedsPool.message())
    );
}
