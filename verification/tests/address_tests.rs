use mixal::expression::Expression;
use mixal::field::Field;
use mixal::instruction::{Address, MixInstruction, Sign};
use mixal::wval::WVal;

fn addr(s: &str, default_field: &str) -> Address {
    Address::new_with_default_field(s, default_field).unwrap()
}

fn expr(s: &str) -> Expression {
    Expression::from_str(s).unwrap()
}

fn wval(s: &str) -> WVal {
    WVal::from_str(s).unwrap()
}

fn field(s: &str) -> Field {
    Field::from_str(s).unwrap()
}

#[test]
fn test_address_full() {
    assert_eq!(
        addr("2000,2(0:3)", "0:5"),
        Address {
            sign: Sign::Positive,
            address: wval("2000"),
            index: expr("2"),
            field: field("(0:3)"),
        }
    );
}

#[test]
fn test_address_no_field() {
    assert_eq!(
        addr("2000,2", "0:5"),
        Address {
            sign: Sign::Positive,
            address: wval("2000"),
            index: expr("2"),
            field: field("(0:5)"),
        }
    );
}

#[test]
fn test_address_no_index() {
    assert_eq!(
        addr("2000(1:3)", "0:5"),
        Address {
            sign: Sign::Positive,
            address: wval("2000"),
            index: expr("0"),
            field: field("(1:3)"),
        }
    );
}

#[test]
fn test_address_only() {
    assert_eq!(
        addr("2000", "0:5"),
        Address {
            sign: Sign::Positive,
            address: wval("2000"),
            index: expr("0"),
            field: field("(0:5)"),
        }
    );
}

#[test]
fn test_address_negative_sign() {
    assert_eq!(
        addr("-2000,2(0:3)", "0:5"),
        Address {
            sign: Sign::Negative,
            address: wval("2000"),
            index: expr("2"),
            field: field("(0:3)"),
        }
    );
}

#[test]
fn test_address_positive_sign() {
    assert_eq!(
        addr("+2000", "0:5"),
        Address {
            sign: Sign::Positive,
            address: wval("2000"),
            index: expr("0"),
            field: field("(0:5)"),
        }
    );
}

#[test]
fn test_address_empty() {
    assert_eq!(
        addr("", "0:5"),
        Address {
            sign: Sign::Positive,
            address: wval("0"),
            index: expr("0"),
            field: field("(0:5)"),
        }
    );
}

#[test]
fn test_address_with_symbols() {
    assert_eq!(
        addr("LABEL,2(1:3)", "0:5"),
        Address {
            sign: Sign::Positive,
            address: wval("LABEL"),
            index: expr("2"),
            field: field("(1:3)"),
        }
    );
}

#[test]
fn test_address_with_expression() {
    assert_eq!(
        addr("2000+5,3", "0:5"),
        Address {
            sign: Sign::Positive,
            address: wval("2000+5"),
            index: expr("3"),
            field: field("(0:5)"),
        }
    );
}

#[test]
fn test_address_different_default_field() {
    assert_eq!(
        addr("2000", "1:3"),
        Address {
            sign: Sign::Positive,
            address: wval("2000"),
            index: expr("0"),
            field: field("(1:3)"),
        }
    );
}

#[test]
fn test_instruction_known_mnemonics() {
    let sta = MixInstruction::try_parse("STA", "2000").unwrap();
    assert_eq!(sta.operation_code, 24);
    let jmp = MixInstruction::try_parse("JMP", "0").unwrap();
    assert_eq!(jmp.operation_code, 39);
    let stj = MixInstruction::try_parse("STJ", "100").unwrap();
    assert_eq!(stj.operation_code, 32);
    assert_eq!(stj.address.field, field("(0:2)"));
}

#[test]
fn test_instruction_unrecognized_mnemonic() {
    assert!(MixInstruction::try_parse("FROB", "2000").is_err());
}
