use mixal::error::AsmError;
use mixal::statement::{Operation, Statement};

#[test]
fn test_statement_with_location_symbol() {
    let st = Statement::from_str("START STA 2000").unwrap();
    assert_eq!(st.loc.unwrap().0, "START");
    assert!(matches!(st.op, Operation::Instruction(_)));
}

#[test]
fn test_statement_without_location_symbol() {
    let st = Statement::from_str("      JMP START").unwrap();
    assert!(st.loc.is_none());
    assert!(matches!(st.op, Operation::Instruction(_)));
}

#[test]
fn test_statement_missing_operation() {
    assert_eq!(
        Statement::from_str("LONELY").unwrap_err(),
        AsmError::MissingOperation
    );
    assert_eq!(
        Statement::from_str("").unwrap_err(),
        AsmError::MissingOperation
    );
}

#[test]
fn test_statement_invalid_location_symbol() {
    assert_eq!(
        Statement::from_str("bad NOP").unwrap_err(),
        AsmError::InvalidSymbol
    );
}

#[test]
fn test_operation_pseudo_ops() {
    assert!(matches!(
        Operation::from_str("EQU 1000").unwrap(),
        Operation::Equ(_)
    ));
    assert!(matches!(
        Operation::from_str("ORIG 3000").unwrap(),
        Operation::Orig(_)
    ));
    assert!(matches!(
        Operation::from_str("CON 5").unwrap(),
        Operation::Con(_)
    ));
    assert!(matches!(
        Operation::from_str("ALF  HELLO").unwrap(),
        Operation::Alf(_)
    ));
    assert!(matches!(
        Operation::from_str("END 0").unwrap(),
        Operation::End(_)
    ));
}

#[test]
fn test_operation_unrecognized_mnemonic() {
    assert_eq!(
        Operation::from_str("FROB 1").unwrap_err(),
        AsmError::UnrecognizedMnemonic
    );
}

#[test]
fn test_operation_missing_pseudo_op_operand() {
    assert!(Operation::from_str("EQU").is_err());
    assert!(Operation::from_str("CON").is_err());
}
