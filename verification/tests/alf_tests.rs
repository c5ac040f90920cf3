use mixal::alf::Alf;

#[test]
fn test_two_leading_spaces() {
    let result = Alf::from_char_data("  HELLO");
    assert!(result.is_ok());
    let alf = result.unwrap();
    assert_eq!(alf.chars, vec!['H', 'E', 'L', 'L', 'O']);
}

#[test]
fn test_two_leading_spaces_with_space_in_data() {
    let result = Alf::from_char_data("  HE LO");
    assert!(result.is_ok());
    let alf = result.unwrap();
    assert_eq!(alf.chars, vec!['H', 'E', ' ', 'L', 'O']);
}

#[test]
fn test_one_leading_space_non_blank_first() {
    let result = Alf::from_char_data(" WORLD");
    assert!(result.is_ok());
    let alf = result.unwrap();
    assert_eq!(alf.chars, vec!['W', 'O', 'R', 'L', 'D']);
}

#[test]
fn test_digits_and_punctuation() {
    let result = Alf::from_char_data("  123+5");
    assert!(result.is_ok());
    let alf = result.unwrap();
    assert_eq!(alf.chars, vec!['1', '2', '3', '+', '5']);
}

#[test]
fn test_all_punctuation() {
    let result = Alf::from_char_data("  .,();");
    assert!(result.is_ok());
    let alf = result.unwrap();
    assert_eq!(alf.chars, vec!['.', ',', '(', ')', ';']);
}

#[test]
fn test_no_leading_spaces() {
    let result = Alf::from_char_data("HELLO");
    assert!(result.is_err());
    assert!(
        result
            .unwrap_err()
            .message()
            .contains("one or two leading blank spaces")
    );
}

#[test]
fn test_three_spaces_valid() {
    // Two leading spaces + space as first char + 4 more chars
    let result = Alf::from_char_data("   HELL");
    assert!(result.is_ok());
    let alf = result.unwrap();
    assert_eq!(alf.chars, vec![' ', 'H', 'E', 'L', 'L']);
}

#[test]
fn test_too_few_characters() {
    let result = Alf::from_char_data("  HELL");
    assert!(result.is_err());
    assert!(
        result
            .unwrap_err()
            .message()
            .contains("exactly 5 characters")
    );
}

#[test]
fn test_too_many_characters() {
    let result = Alf::from_char_data("  HELLOO");
    assert!(result.is_err());
    assert!(
        result
            .unwrap_err()
            .message()
            .contains("exactly 5 characters")
    );
}

#[test]
fn test_invalid_character_lowercase() {
    let result = Alf::from_char_data("  HeLLO");
    assert!(result.is_err());
    assert!(
        result
            .unwrap_err()
            .message()
            .contains("Invalid character")
    );
}

#[test]
fn test_invalid_character_special() {
    let result = Alf::from_char_data("  HEL#O");
    assert!(result.is_err());
    assert!(
        result
            .unwrap_err()
            .message()
            .contains("Invalid character")
    );
}

#[test]
fn test_empty_after_spaces() {
    let result = Alf::from_char_data("  ");
    assert!(result.is_err());
    assert!(
        result
            .unwrap_err()
            .message()
            .contains("exactly 5 characters")
    );
}
