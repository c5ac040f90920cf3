use mixal::expression::Expression;
use mixal::field::Field;
use mixal::wval::{FutureRef, WVal, WValComponent, WValInner};

fn component(expr: &str, field: &str) -> WValComponent {
    WValComponent {
        expression: Expression::from_str(expr).unwrap(),
        field: Field::from_str(field).unwrap(),
    }
}

fn component_default_field(expr: &str) -> WValComponent {
    component(expr, "(0:5)")
}

#[test]
fn test_wval_component_with_field() {
    assert_eq!(
        WValComponent::from_str("3+4(1:1)").unwrap(),
        component("3+4", "(1:1)")
    );
    assert_eq!(
        WValComponent::from_str("10024(3:5)").unwrap(),
        component("10024", "(3:5)")
    );
    assert_eq!(
        WValComponent::from_str("*(0:2)").unwrap(),
        component("*", "(0:2)")
    );
    assert_eq!(
        WValComponent::from_str("LABEL(1:3)").unwrap(),
        component("LABEL", "(1:3)")
    );
}

#[test]
fn test_wval_component_default_field() {
    assert_eq!(
        WValComponent::from_str("10024").unwrap(),
        component_default_field("10024")
    );
    assert_eq!(
        WValComponent::from_str("5").unwrap(),
        component_default_field("5")
    );
    assert_eq!(
        WValComponent::from_str("*").unwrap(),
        component_default_field("*")
    );
    assert_eq!(
        WValComponent::from_str("X+1").unwrap(),
        component_default_field("X+1")
    );
}

#[test]
fn test_wval_component_invalid() {
    // Invalid field specifier
    assert!(WValComponent::from_str("5(%bad%)").is_err());
    // Empty string results in empty expression which fails
    assert!(WValComponent::from_str("").is_err());
    // Only field specifier, no expression
    assert!(WValComponent::from_str("(1:1)").is_err());
}

fn wval_inner(components: Vec<WValComponent>) -> WValInner {
    WValInner { components }
}

#[test]
fn test_wval_inner_single_component() {
    assert_eq!(
        WValInner::from_str("5").unwrap(),
        wval_inner(vec![component_default_field("5")])
    );
    assert_eq!(
        WValInner::from_str("X(1:3)").unwrap(),
        wval_inner(vec![component("X", "(1:3)")])
    );
}

#[test]
fn test_wval_inner_multiple_components() {
    assert_eq!(
        WValInner::from_str("1,2,3").unwrap(),
        wval_inner(vec![
            component_default_field("1"),
            component_default_field("2"),
            component_default_field("3"),
        ])
    );
    assert_eq!(
        WValInner::from_str("X(1:1),Y(2:2)").unwrap(),
        wval_inner(vec![component("X", "(1:1)"), component("Y", "(2:2)"),])
    );
    assert_eq!(
        WValInner::from_str("1(0:1),2(1:2),3(2:3)").unwrap(),
        wval_inner(vec![
            component("1", "(0:1)"),
            component("2", "(1:2)"),
            component("3", "(2:3)"),
        ])
    );
}

#[test]
fn test_wval_regular() {
    assert_eq!(
        WVal::from_str("5").unwrap(),
        WVal::WValInner(wval_inner(vec![component_default_field("5")]))
    );
    assert_eq!(
        WVal::from_str("1,2").unwrap(),
        WVal::WValInner(wval_inner(vec![
            component_default_field("1"),
            component_default_field("2"),
        ]))
    );
}

#[test]
fn test_wval_future_ref() {
    assert_eq!(
        WVal::from_str("=5=").unwrap(),
        WVal::FutureRef(FutureRef {
            wval: wval_inner(vec![component_default_field("5")])
        })
    );
    assert_eq!(
        WVal::from_str("=1,2=").unwrap(),
        WVal::FutureRef(FutureRef {
            wval: wval_inner(vec![
                component_default_field("1"),
                component_default_field("2"),
            ])
        })
    );
    assert_eq!(
        WVal::from_str("=X(1:3)=").unwrap(),
        WVal::FutureRef(FutureRef {
            wval: wval_inner(vec![component("X", "(1:3)")])
        })
    );
}

#[test]
fn test_wval_invalid() {
    // Too long (over 10 characters)
    assert!(WVal::from_str("12345678901").is_err());
    // Malformed future ref (missing closing =)
    assert!(WVal::from_str("=5").is_err());
}
