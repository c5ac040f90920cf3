use mixal::symbol::Symbol;

#[test]
fn symbol_test_new_symbol_valid() {
    assert!(Symbol::new("5H").is_ok());
    assert!(Symbol::new("MAXIMCHARS").is_ok());
}

#[test]
fn symbol_test_new_symbol_empty() {
    assert!(Symbol::new("").is_err());
}

#[test]
fn symbol_test_new_symbol_too_long() {
    assert!(Symbol::new("AAAAAAAAAAA").is_err());
}

#[test]
fn symbol_test_new_symbol_no_letters() {
    assert!(Symbol::new("12345").is_err());
}

#[test]
fn symbol_test_new_symbol_invalid_chars() {
    assert!(Symbol::new("abcd1").is_err());
    assert!(Symbol::new("LABEL@#").is_err());
    assert!(Symbol::new("LAbEL3").is_err());
}

#[test]
fn mixal_test_new_symbol_valid() {
    assert!(Symbol::new("5H").is_ok());
    assert!(Symbol::new("MAXIMCHARS").is_ok());
}

#[test]
fn mixal_test_new_symbol_empty() {
    assert!(Symbol::new("").is_err());
}

#[test]
fn mixal_test_new_symbol_too_long() {
    assert!(Symbol::new("AAAAAAAAAAA").is_err());
}

#[test]
fn mixal_test_new_symbol_no_letters() {
    assert!(Symbol::new("12345").is_err());
}

#[test]
fn mixal_test_new_symbol_invalid_chars() {
    assert!(Symbol::new("abcd1").is_err());
    assert!(Symbol::new("LABEL@#").is_err());
    assert!(Symbol::new("LAbEL3").is_err());
}

#[test]
fn symbol_keeps_its_text() {
    let sym = Symbol::new("START").unwrap();
    assert_eq!(sym.0, "START");
}
