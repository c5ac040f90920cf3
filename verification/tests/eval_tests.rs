use mixal::error::AsmError;
use mixal::expression::Expression;
use mixal::field::Field;
use mixal::instruction::Sign;
use mixal::value::{MixValue, SymbolTable};
use mixal::word::field_range_of;

fn eval(text: &str) -> MixValue {
    let table = SymbolTable::new();
    Expression::from_str(text).unwrap().evaluate(0, &table).unwrap()
}

#[test]
fn test_left_associative_evaluation() {
    // 34+7-4 is (34+7)-4 = 37, never 34+(7-4).
    let v = eval("34+7-4");
    assert_eq!(v, MixValue { sign: Sign::Positive, magnitude: 37 });
    // 10/2/5 is (10/2)/5 = 1, never 10/(2/5).
    let v = eval("10/2/5");
    assert_eq!(v, MixValue { sign: Sign::Positive, magnitude: 1 });
}

#[test]
fn test_unary_minus_and_sign() {
    let v = eval("-5");
    assert_eq!(v, MixValue { sign: Sign::Negative, magnitude: 5 });
    let v = eval("1-3");
    assert_eq!(v, MixValue { sign: Sign::Negative, magnitude: 2 });
}

#[test]
fn test_multiplication_modulo_word_range() {
    // 40000 * 40000 = 1600000000, which is 1600000000 - 1073741824 =
    // 526258176 modulo 64^5.
    let v = eval("40000*40000");
    assert_eq!(v, MixValue { sign: Sign::Positive, magnitude: 526258176 });
}

#[test]
fn test_scaled_divide() {
    // 1//2 is floor(1 * 64^5 / 2) = 536870912.
    let v = eval("1//2");
    assert_eq!(v, MixValue { sign: Sign::Positive, magnitude: 536870912 });
}

#[test]
fn test_division_by_zero() {
    let table = SymbolTable::new();
    let r = Expression::from_str("1/0").unwrap().evaluate(0, &table);
    assert_eq!(r.unwrap_err(), AsmError::DivisionByZero);
    let r = Expression::from_str("1//0").unwrap().evaluate(0, &table);
    assert_eq!(r.unwrap_err(), AsmError::DivisionByZero);
}

#[test]
fn test_undefined_symbol_is_reported_by_name() {
    let table = SymbolTable::new();
    let r = Expression::from_str("X+1").unwrap().evaluate(0, &table);
    assert_eq!(r.unwrap_err(), AsmError::UndefinedSymbol("X".to_string()));
}

#[test]
fn test_asterisk_is_location_counter() {
    let table = SymbolTable::new();
    let v = Expression::from_str("*+2").unwrap().evaluate(100, &table).unwrap();
    assert_eq!(v, MixValue { sign: Sign::Positive, magnitude: 102 });
}

#[test]
fn test_symbol_lookup() {
    let mut table = SymbolTable::new();
    let sym = mixal::symbol::Symbol::new("X").unwrap();
    table.define(sym, MixValue { sign: Sign::Positive, magnitude: 41 }).unwrap();
    let v = Expression::from_str("X+1").unwrap().evaluate(0, &table).unwrap();
    assert_eq!(v, MixValue { sign: Sign::Positive, magnitude: 42 });
}

#[test]
fn test_duplicate_symbol_definition() {
    let mut table = SymbolTable::new();
    let x1 = mixal::symbol::Symbol::new("X").unwrap();
    let x2 = mixal::symbol::Symbol::new("X").unwrap();
    let v = MixValue { sign: Sign::Positive, magnitude: 1 };
    assert!(table.define(x1, v).is_ok());
    assert_eq!(table.define(x2, v).unwrap_err(), AsmError::DuplicateSymbol);
}

#[test]
fn test_field_round_trip() {
    // (1:4) evaluates to L=1, R=4 and packs to the byte 8*1+4 = 12.
    let table = SymbolTable::new();
    let field = Field::from_str("(1:4)").unwrap();
    let fv = field.expression.evaluate(0, &table).unwrap();
    assert_eq!(fv.magnitude, 12);
    assert_eq!(field_range_of(fv), Some((1, 4)));
}

#[test]
fn test_field_range_rejects_bad_pairs() {
    // 5:1 gives L > R; 0:6 gives R > 5.
    let table = SymbolTable::new();
    let fv = Field::from_str("(5:1)").unwrap().expression.evaluate(0, &table).unwrap();
    assert_eq!(field_range_of(fv), None);
    let fv = Field::from_str("(0:6)").unwrap().expression.evaluate(0, &table).unwrap();
    assert_eq!(field_range_of(fv), None);
}
