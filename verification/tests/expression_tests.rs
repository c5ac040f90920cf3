use mixal::expression::Expression;
use mixal::number::Number;
use mixal::operator::{BinaryOperator, UnaryOperator};
use mixal::symbol::Symbol;

fn num(n: u32) -> Expression {
    Expression::Number(Number(n))
}

fn binop(op: BinaryOperator, left: Expression, right: Expression) -> Expression {
    Expression::BinaryOperation(op, Box::new(left), Box::new(right))
}

fn unop(op: UnaryOperator, expr: Expression) -> Expression {
    Expression::UnaryOperation(op, Box::new(expr))
}

fn sym(s: &str) -> Expression {
    Expression::Symbol(Symbol::new(s).unwrap())
}

#[test]
fn expression_test_from_str() {
    assert_eq!(Expression::from_str("34").unwrap(), num(34));
    assert_eq!(
        Expression::from_str("34+7").unwrap(),
        binop(BinaryOperator::Plus, num(34), num(7))
    );
    assert_eq!(
        Expression::from_str("34+7-4").unwrap(),
        binop(
            BinaryOperator::Minus,
            binop(BinaryOperator::Plus, num(34), num(7)),
            num(4),
        )
    );
    assert_eq!(
        Expression::from_str("-1+5*20/6").unwrap(),
        binop(
            BinaryOperator::IntDivide,
            binop(
                BinaryOperator::Multiply,
                binop(
                    BinaryOperator::Plus,
                    unop(UnaryOperator::Minus, num(1)),
                    num(5)
                ),
                num(20),
            ),
            num(6),
        )
    );
    assert_eq!(
        Expression::from_str("X+1").unwrap(),
        binop(BinaryOperator::Plus, sym("X"), num(1))
    );
    assert_eq!(
        Expression::from_str("1+LABEL").unwrap(),
        binop(BinaryOperator::Plus, num(1), sym("LABEL"))
    );
    assert_eq!(
        Expression::from_str("A+B").unwrap(),
        binop(BinaryOperator::Plus, sym("A"), sym("B"))
    );
    assert_eq!(
        Expression::from_str("-X").unwrap(),
        unop(UnaryOperator::Minus, sym("X"))
    );
    assert_eq!(
        Expression::from_str("X*Y+Z").unwrap(),
        binop(
            BinaryOperator::Plus,
            binop(BinaryOperator::Multiply, sym("X"), sym("Y")),
            sym("Z"),
        )
    );
    assert_eq!(
        Expression::from_str("*+1").unwrap(),
        binop(BinaryOperator::Plus, Expression::Asterisk, num(1))
    );
    assert_eq!(
        Expression::from_str("*-5").unwrap(),
        binop(BinaryOperator::Minus, Expression::Asterisk, num(5))
    );
    assert_eq!(
        Expression::from_str("LABEL-*").unwrap(),
        binop(BinaryOperator::Minus, sym("LABEL"), Expression::Asterisk)
    );
}

#[test]
fn test_rightmost_split_tree() {
    // Strict left-to-right grouping with no precedence: the tree of
    // -1+5*20/6 is IntDivide(Multiply(Plus(Unary(-,1),5),20),6).
    let parsed = Expression::from_str("-1+5*20/6").unwrap();
    let expected = binop(
        BinaryOperator::IntDivide,
        binop(
            BinaryOperator::Multiply,
            binop(
                BinaryOperator::Plus,
                unop(UnaryOperator::Minus, num(1)),
                num(5),
            ),
            num(20),
        ),
        num(6),
    );
    assert_eq!(parsed, expected);
}

#[test]
fn test_scaled_divide_parses() {
    assert_eq!(
        Expression::from_str("1//3").unwrap(),
        binop(BinaryOperator::ScaledDivide, num(1), num(3))
    );
}

#[test]
fn test_malformed_expressions_rejected() {
    assert!(Expression::from_str("").is_err());
    assert!(Expression::from_str("1+").is_err());
    assert!(Expression::from_str("+").is_err());
    assert!(Expression::from_str("1--5").is_err());
    assert!(Expression::from_str("a+b").is_err());
}

#[test]
fn test_round_trip_canonical_text() {
    // Parse, serialize to canonical left-to-right infix text, re-parse:
    // the tree is unchanged.
    for text in ["34+7-4", "-1+5*20/6", "LABEL-*", "*+1", "007", "X*Y+Z", "1//3", "-X"] {
        let first = Expression::from_str(text).unwrap();
        let canon = first.to_text();
        let second = Expression::from_str(canon.as_str()).unwrap();
        assert_eq!(first, second);
    }
}

#[test]
fn test_to_text_exact() {
    let e = Expression::from_str("34+7-4").unwrap();
    assert_eq!(e.to_text(), "34+7-4");
    let z = Expression::from_str("007").unwrap();
    assert_eq!(z.to_text(), "7");
}
