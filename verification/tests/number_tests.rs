use mixal::number::Number;

#[test]
fn number_test_from_str() {
    assert_eq!(Number::from_str("12345").unwrap(), Number(12345));
    assert_eq!(Number::from_str("12").unwrap(), Number(12));
    assert_eq!(Number::from_str("1234567890").unwrap(), Number(1234567890));

    assert!(Number::from_str("-12422").is_err());
    assert!(Number::from_str("7H").is_err());
    assert!(Number::from_str("").is_err());
    assert!(
        Number::from_str("12345678900").is_err(),
        "10 digit limit should be respected"
    );
}

#[test]
fn number_overflow_rejected() {
    // Ten digits, but too large for the numeric type.
    assert!(Number::from_str("9999999999").is_err());
    assert_eq!(Number::from_str("4294967295").unwrap(), Number(4294967295));
}
