use password_generator::alphabet::CharacterClass;
use password_generator::builder::{
    check_request, draw_required, generate_password, overwrite_front, render, GenerateError,
};
use password_generator::selection::{Selection, MAX_POOL_SIZE};

const SPECIAL: &str = "!\"#$%&'()*+,-./:;<=>?@[\\]^_`{|}~";

fn all_selections() -> Vec<Selection> {
    let mut list = Vec::new();
    for bits in 0u8..16 {
        list.push(Selection::new(bits & 1 != 0, bits & 2 != 0, bits & 4 != 0, bits & 8 != 0));
    }
    list
}

const CLASSES: [CharacterClass; 4] = [
    CharacterClass::Lowercase,
    CharacterClass::Uppercase,
    CharacterClass::Digit,
    CharacterClass::Special,
];

#[test]
fn alphabets_are_the_fixed_ones() {
    assert_eq!(CharacterClass::Lowercase.text(), "abcdefghijklmnopqrstuvwxyz");
    assert_eq!(CharacterClass::Uppercase.text(), "ABCDEFGHIJKLMNOPQRSTUVWXYZ");
    assert_eq!(CharacterClass::Digit.text(), "0123456789");
    assert_eq!(CharacterClass::Special.text(), SPECIAL);
    assert_eq!(CharacterClass::Lowercase.chars().len(), 26);
    assert_eq!(CharacterClass::Uppercase.chars().len(), 26);
    assert_eq!(CharacterClass::Digit.chars().len(), 10);
    assert_eq!(CharacterClass::Special.chars().len(), 32);
    assert_eq!(CharacterClass::Digit.chars(), "0123456789".chars().collect::<Vec<char>>());
}

#[test]
fn class_contains_exactly_its_alphabet() {
    for class in CLASSES {
        let alphabet = class.chars();
        for code in 0u32..=0x10ffff {
            if let Some(c) = char::from_u32(code) {
                assert_eq!(class.contains(c), alphabet.contains(&c), "{:?} {:x}", class, code);
            }
        }
    }
}

#[test]
fn classes_share_no_character() {
    for first in CLASSES {
        for second in CLASSES {
            if first != second {
                for c in first.chars() {
                    assert!(!second.contains(c));
                }
            }
        }
    }
}

#[test]
fn count_and_minimum_length() {
    let none = Selection::new(false, false, false, false);
    assert_eq!(none.selected_count(), 0);
    assert_eq!(none.min_length(), 1);
    let one = Selection::new(false, false, true, false);
    assert_eq!(one.selected_count(), 1);
    assert_eq!(one.min_length(), 1);
    let three = Selection::new(true, false, true, true);
    assert_eq!(three.selected_count(), 3);
    assert_eq!(three.min_length(), 3);
    let all = Selection::new(true, true, true, true);
    assert_eq!(all.selected_count(), 4);
    assert_eq!(all.min_length(), 4);
}

#[test]
fn enabled_classes_keep_the_fixed_order() {
    let some = Selection::new(true, false, true, true);
    assert_eq!(
        some.enabled_classes(),
        vec![CharacterClass::Lowercase, CharacterClass::Digit, CharacterClass::Special]
    );
    assert!(some.is_enabled(CharacterClass::Lowercase));
    assert!(!some.is_enabled(CharacterClass::Uppercase));
    assert!(some.is_enabled(CharacterClass::Digit));
    assert!(some.is_enabled(CharacterClass::Special));
    assert_eq!(Selection::new(false, false, false, false).enabled_classes(), vec![]);
}

#[test]
fn pool_is_the_alphabets_in_order() {
    let all = Selection::new(true, true, true, true);
    let expected = format!(
        "abcdefghijklmnopqrstuvwxyzABCDEFGHIJKLMNOPQRSTUVWXYZ0123456789{}",
        SPECIAL
    );
    assert_eq!(all.character_pool().iter().collect::<String>(), expected);
    assert_eq!(all.character_pool().len(), MAX_POOL_SIZE);
    let two = Selection::new(false, true, true, false);
    assert_eq!(
        two.character_pool().iter().collect::<String>(),
        "ABCDEFGHIJKLMNOPQRSTUVWXYZ0123456789"
    );
    assert!(Selection::new(false, false, false, false).character_pool().is_empty());
}

#[test]
fn zero_classes_is_refused() {
    let none = Selection::new(false, false, false, false);
    for length in [0usize, 1, 4, 100] {
        assert_eq!(generate_password(&none, length), Err(GenerateError::NoClassSelected));
        assert_eq!(check_request(&none, length), Err(GenerateError::NoClassSelected));
    }
    assert_eq!(
        GenerateError::NoClassSelected.message(),
        "You must select at least one character type!"
    );
}

#[test]
fn length_under_the_class_count_is_refused() {
    let all = Selection::new(true, true, true, true);
    assert_eq!(generate_password(&all, 3), Err(GenerateError::LengthBelowMinimum));
    assert_eq!(generate_password(&all, 0), Err(GenerateError::LengthBelowMinimum));
    let one = Selection::new(true, false, false, false);
    assert_eq!(generate_password(&one, 0), Err(GenerateError::LengthBelowMinimum));
    assert!(generate_password(&all, 4).is_ok());
}

#[test]
fn length_over_the_pool_is_refused() {
    let digits = Selection::new(false, false, true, false);
    assert_eq!(generate_password(&digits, 11), Err(GenerateError::LengthExceedsPool));
    assert_eq!(check_request(&digits, 10), Ok(()));
    assert_eq!(generate_password(&digits, 10).map(|p| p.chars().count()), Ok(10));
    let all = Selection::new(true, true, true, true);
    assert_eq!(generate_password(&all, 95), Err(GenerateError::LengthExceedsPool));
    assert_eq!(generate_password(&all, 94).map(|p| p.chars().count()), Ok(94));
}

#[test]
fn error_messages_differ() {
    let texts = [
        GenerateError::NoClassSelected.message(),
        GenerateError::LengthBelowMinimum.message(),
        GenerateError::LengthExceedsPool.message(),
    ];
    assert_ne!(texts[0], texts[1]);
    assert_ne!(texts[1], texts[2]);
    assert_ne!(texts[0], texts[2]);
}

#[test]
fn digits_only_length_four() {
    let digits = Selection::new(false, false, true, false);
    for _ in 0..200 {
        let password = generate_password(&digits, 4).unwrap();
        assert_eq!(password.chars().count(), 4);
        assert!(password.chars().all(|c| c.is_ascii_digit()));
    }
}

#[test]
fn all_classes_length_ten() {
    let all = Selection::new(true, true, true, true);
    for _ in 0..200 {
        let password = generate_password(&all, 10).unwrap();
        assert_eq!(password.chars().count(), 10);
        assert!(password.chars().any(|c| c.is_ascii_lowercase()));
        assert!(password.chars().any(|c| c.is_ascii_uppercase()));
        assert!(password.chars().any(|c| c.is_ascii_digit()));
        assert!(password.chars().any(|c| SPECIAL.contains(c)));
    }
}

#[test]
fn every_request_that_is_not_refused_gets_its_length() {
    for selection in all_selections() {
        let count = selection.selected_count();
        let size = selection.character_pool().len();
        for length in 0..=size + 1 {
            let outcome = generate_password(&selection, length);
            if count == 0 {
                assert_eq!(outcome, Err(GenerateError::NoClassSelected));
            } else if length < count {
                assert_eq!(outcome, Err(GenerateError::LengthBelowMinimum));
            } else if length > size {
                assert_eq!(outcome, Err(GenerateError::LengthExceedsPool));
            } else {
                assert_eq!(outcome.unwrap().chars().count(), length);
            }
        }
    }
}

#[test]
fn every_enabled_class_is_covered() {
    for selection in all_selections() {
        let count = selection.selected_count();
        if count == 0 {
            continue;
        }
        for length in [count, count + 1, 10] {
            let password = generate_password(&selection, length).unwrap();
            for class in selection.enabled_classes() {
                assert!(password.chars().any(|c| class.contains(c)), "{:?}", class);
            }
        }
    }
}

#[test]
fn no_disabled_class_occurs() {
    for selection in all_selections() {
        let size = selection.character_pool().len();
        if size == 0 {
            continue;
        }
        let password = generate_password(&selection, size).unwrap();
        for class in CLASSES {
            if !selection.is_enabled(class) {
                assert!(!password.chars().any(|c| class.contains(c)), "{:?}", class);
            }
        }
        let pool = selection.character_pool();
        assert!(password.chars().all(|c| pool.contains(&c)));
    }
}

#[test]
fn required_characters_follow_the_class_order() {
    let mut rng = rand::thread_rng();
    let some = Selection::new(true, false, true, true);
    for _ in 0..100 {
        let required = draw_required(&mut rng, &some);
        assert_eq!(required.len(), 3);
        assert!(CharacterClass::Lowercase.contains(required[0]));
        assert!(CharacterClass::Digit.contains(required[1]));
        assert!(CharacterClass::Special.contains(required[2]));
    }
    let none = Selection::new(false, false, false, false);
    assert!(draw_required(&mut rng, &none).is_empty());
}

#[test]
fn required_characters_vary() {
    let mut rng = rand::thread_rng();
    let lower = Selection::new(true, false, false, false);
    let first = draw_required(&mut rng, &lower);
    let mut differs = false;
    for _ in 0..200 {
        if draw_required(&mut rng, &lower) != first {
            differs = true;
        }
    }
    assert!(differs);
}

#[test]
fn overwrite_front_replaces_the_first_positions() {
    let mut password = vec!['a', 'b', 'c', 'd', 'e'];
    overwrite_front(&mut password, &vec!['X', '7']);
    assert_eq!(password, vec!['X', '7', 'c', 'd', 'e']);
    overwrite_front(&mut password, &vec![]);
    assert_eq!(password, vec!['X', '7', 'c', 'd', 'e']);
    let mut whole = vec!['a', 'b'];
    overwrite_front(&mut whole, &vec!['1', '2']);
    assert_eq!(whole, vec!['1', '2']);
}

#[test]
fn render_keeps_the_characters_in_order() {
    assert_eq!(render(&vec!['p', '4', '$', 'W']), "p4$W");
    assert_eq!(render(&vec![]), "");
}

#[test]
fn password_is_shuffled() {
    let all = Selection::new(true, true, true, true);
    let mut moved = false;
    for _ in 0..200 {
        let password: Vec<char> = generate_password(&all, 10).unwrap().chars().collect();
        let in_class_order = CharacterClass::Lowercase.contains(password[0])
            && CharacterClass::Uppercase.contains(password[1])
            && CharacterClass::Digit.contains(password[2])
            && CharacterClass::Special.contains(password[3]);
        if !in_class_order {
            moved = true;
        }
    }
    assert!(moved);
}

#[test]
fn whole_pool_is_drawn_without_repetition() {
    let digits = Selection::new(false, false, true, false);
    for _ in 0..50 {
        let password: Vec<char> = generate_password(&digits, 10).unwrap().chars().collect();
        let mut repeated = 0;
        for c in CharacterClass::Digit.chars() {
            let times = password.iter().filter(|&&p| p == c).count();
            if times > 1 {
                repeated += times - 1;
            }
        }
        assert!(repeated <= 1);
    }
}

#[test]
fn length_read_without_bound_reaches_the_builder() {
    let digits = Selection::new(false, false, true, false);
    let length = password_generator::input::parse_length("2147483648", digits.min_length());
    assert_eq!(length, Ok(2147483648));
    assert_eq!(
        generate_password(&digits, length.unwrap()),
        Err(GenerateError::LengthExceedsPool)
    );
    assert_eq!(generate_password(&digits, usize::MAX), Err(GenerateError::LengthExceedsPool));
}
