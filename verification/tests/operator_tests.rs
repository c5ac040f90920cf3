use mixal::operator::{BinaryOperator, UnaryOperator};

#[test]
fn test_unop_starts_with() {
    assert_eq!(UnaryOperator::starts_with("+37"), true);
    assert_eq!(UnaryOperator::starts_with("-37"), true);
    assert_eq!(UnaryOperator::starts_with("37"), false);
    assert_eq!(UnaryOperator::starts_with(""), false);
}

#[test]
fn test_unop_from_str() {
    assert_eq!(UnaryOperator::from_str("+").unwrap(), UnaryOperator::Plus);
    assert_eq!(UnaryOperator::from_str("-").unwrap(), UnaryOperator::Minus);
    assert!(UnaryOperator::from_str("").is_err());
    assert!(UnaryOperator::from_str("sdfsd").is_err());
}

#[test]
fn test_binop_find_rightmost_in() {
    assert_eq!(BinaryOperator::find_rightmost_in("3+4"), Some((1, "+")));
    assert_eq!(BinaryOperator::find_rightmost_in("3"), None);
    assert_eq!(BinaryOperator::find_rightmost_in("3*5+4"), Some((3, "+")));
    assert_eq!(BinaryOperator::find_rightmost_in("37/5+4"), Some((4, "+")));
    assert_eq!(
        BinaryOperator::find_rightmost_in("37+5//4"),
        Some((4, "//"))
    );
    assert_eq!(
        BinaryOperator::find_rightmost_in("102456:9"),
        Some((6, ":"))
    );
    assert_eq!(BinaryOperator::find_rightmost_in("9-7"), Some((1, "-")));
    assert_eq!(BinaryOperator::find_rightmost_in(""), None);
}

#[test]
fn test_binop_from_str() {
    assert_eq!(BinaryOperator::from_str("+").unwrap(), BinaryOperator::Plus);
    assert_eq!(
        BinaryOperator::from_str("-").unwrap(),
        BinaryOperator::Minus
    );
    assert_eq!(
        BinaryOperator::from_str("*").unwrap(),
        BinaryOperator::Multiply
    );
    assert_eq!(
        BinaryOperator::from_str("/").unwrap(),
        BinaryOperator::IntDivide
    );
    assert_eq!(
        BinaryOperator::from_str("//").unwrap(),
        BinaryOperator::ScaledDivide
    );
    assert_eq!(
        BinaryOperator::from_str(":").unwrap(),
        BinaryOperator::Colon
    );

    assert!(BinaryOperator::from_str("").is_err());
    assert!(BinaryOperator::from_str("a").is_err());
}
