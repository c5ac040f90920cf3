use mixal::equ::Equ;

#[test]
fn test_try_parse_valid() {
    let result = Equ::try_parse("EQU 1000").unwrap();
    assert!(result.is_some());
}

#[test]
fn test_try_parse_valid_with_expression() {
    let result = Equ::try_parse("EQU X+1").unwrap();
    assert!(result.is_some());
}

#[test]
fn test_try_parse_not_equ() {
    // Should return Ok(None) for other opcodes
    assert!(Equ::try_parse("ORIG 3000").unwrap().is_none());
    assert!(Equ::try_parse("CON 5").unwrap().is_none());
    assert!(Equ::try_parse("STJ EXIT").unwrap().is_none());
}

#[test]
fn test_try_parse_missing_operand() {
    // Should error, not return None
    assert!(Equ::try_parse("EQU").is_err());
    assert!(Equ::try_parse("EQU   ").is_err());
}

#[test]
fn test_try_parse_invalid_operand() {
    // Should error due to invalid WVal
    assert!(Equ::try_parse("EQU (bad)").is_err());
}
