use mixal::expression::Expression;
use mixal::field::Field;

fn expr(s: &str) -> Expression {
    Expression::from_str(s).unwrap()
}

#[test]
fn field_test_from_str() {
    assert_eq!(
        Field::from_str("(1:4)").unwrap(),
        Field { expression: expr("1:4") }
    );
    assert_eq!(
        Field::from_str("(0:5)").unwrap(),
        Field { expression: expr("0:5") }
    );
    assert_eq!(
        Field::from_str("(1:1)").unwrap(),
        Field { expression: expr("1:1") }
    );
    assert!(Field::from_str("(%invaliud%)").is_err());
    assert!(Field::from_str("(").is_err());
    assert!(Field::from_str("").is_err());
    assert!(Field::from_str(")").is_err());
    assert!(Field::from_str("(()").is_err());
}

#[test]
fn test_find_field_or_default() {
    assert_eq!(
        Field::find_field_or_default("3+4(1:1)", "0:5").unwrap(),
        (Field { expression: expr("1:1") }, 3)
    );
    assert_eq!(
        Field::find_field_or_default("10024(3:5)", "4").unwrap(),
        (Field { expression: expr("3:5") }, 5)
    );
    assert_eq!(
        Field::find_field_or_default("10024", "0:5").unwrap(),
        (Field { expression: expr("0:5") }, 5)
    );
    assert_eq!(
        Field::find_field_or_default("", "0:5").unwrap(),
        (Field { expression: expr("0:5") }, 0)
    );
    assert!(Field::find_field_or_default("(%invalid%)", "0:5").is_err());
    assert!(Field::find_field_or_default("", "0:").is_err());
}
