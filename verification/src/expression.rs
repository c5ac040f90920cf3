use vstd::prelude::*;

use crate::error::AsmError;
use crate::number::{is_valid_number, Number};
use crate::operator::{
    is_unop_char, lemma_find_rightmost_props, spec_binop, spec_find_rightmost, BinaryOperator,
    UnaryOperator,
};
use crate::symbol::{is_valid_symbol, Symbol};
use crate::text::{all_digits, digits_value, is_digit_char};

verus! {

/// The mathematical form of an expression tree; every contract over
/// expressions speaks in terms of this type.
pub enum SpecExpr {
    Asterisk,
    Sym(Seq<char>),
    Num(int),
    Unary(UnaryOperator, Box<SpecExpr>),
    Binary(BinaryOperator, Box<SpecExpr>, Box<SpecExpr>),
}

/// Symbols in the tree are valid and numbers fit the numeric type.
pub open spec fn wf_spec_expr(e: SpecExpr) -> bool
    decreases e,
{
    match e {
        SpecExpr::Asterisk => true,
        SpecExpr::Sym(name) => is_valid_symbol(name),
        SpecExpr::Num(n) => 0 <= n <= u32::MAX,
        SpecExpr::Unary(_, sub) => wf_spec_expr(*sub),
        SpecExpr::Binary(_, l, r) => wf_spec_expr(*l) && wf_spec_expr(*r),
    }
}

/// An expression of the MIXAL grammar: the current location counter (`*`),
/// a symbol, a number, or an operator applied to sub-expressions.
#[derive(Debug, PartialEq)]
pub enum Expression {
    Asterisk,
    Symbol(Symbol),
    Number(Number),
    BinaryOperation(BinaryOperator, Box<Expression>, Box<Expression>),
    UnaryOperation(UnaryOperator, Box<Expression>),
}

pub open spec fn view_expr(e: Expression) -> SpecExpr
    decreases e,
{
    match e {
        Expression::Asterisk => SpecExpr::Asterisk,
        Expression::Symbol(sym) => SpecExpr::Sym(sym@),
        Expression::Number(n) => SpecExpr::Num(n.0 as int),
        Expression::UnaryOperation(op, sub) => SpecExpr::Unary(op, Box::new(view_expr(*sub))),
        Expression::BinaryOperation(op, l, r) => SpecExpr::Binary(
            op,
            Box::new(view_expr(*l)),
            Box::new(view_expr(*r)),
        ),
    }
}

impl View for Expression {
    type V = SpecExpr;

    open spec fn view(&self) -> SpecExpr {
        view_expr(*self)
    }
}

/// The expression grammar.  In priority order: the bare location counter;
/// a split at the rightmost interior binary operator (which is what yields
/// MIXAL's left-to-right grouping with no precedence); a sign prefix; a
/// number; a symbol.
pub open spec fn spec_parse_expr(s: Seq<char>) -> Option<SpecExpr>
    decreases s.len(),
    via spec_parse_expr_dec
{
    if s.len() == 1 && s[0] == '*' {
        Some(SpecExpr::Asterisk)
    } else if spec_find_rightmost(s) is Some {
        let (pos, oplen) = spec_find_rightmost(s).unwrap();
        let op = spec_binop(s.subrange(pos, pos + oplen));
        let l = spec_parse_expr(s.subrange(0, pos));
        let r = spec_parse_expr(s.subrange(pos + oplen, s.len() as int));
        if op is Some && l is Some && r is Some {
            Some(
                SpecExpr::Binary(op.unwrap(), Box::new(l.unwrap()), Box::new(r.unwrap())),
            )
        } else {
            None
        }
    } else if s.len() >= 1 && is_unop_char(s[0]) {
        let op = if s[0] == '+' {
            UnaryOperator::Plus
        } else {
            UnaryOperator::Minus
        };
        let sub = spec_parse_expr(s.subrange(1, s.len() as int));
        if sub is Some {
            Some(SpecExpr::Unary(op, Box::new(sub.unwrap())))
        } else {
            None
        }
    } else if s.len() >= 1 && all_digits(s) {
        if is_valid_number(s) {
            Some(SpecExpr::Num(digits_value(s)))
        } else {
            None
        }
    } else if is_valid_symbol(s) {
        Some(SpecExpr::Sym(s))
    } else {
        None
    }
}

#[via_fn]
proof fn spec_parse_expr_dec(s: Seq<char>) {
    lemma_find_rightmost_props(s);
}

/// Everything a successful parse yields is well-formed.
pub proof fn lemma_parse_expr_wf(s: Seq<char>)
    ensures
        spec_parse_expr(s) matches Some(e) ==> wf_spec_expr(e),
    decreases s.len(),
{
    lemma_find_rightmost_props(s);
    if s.len() == 1 && s[0] == '*' {
    } else if spec_find_rightmost(s) is Some {
        let (pos, oplen) = spec_find_rightmost(s).unwrap();
        lemma_parse_expr_wf(s.subrange(0, pos));
        lemma_parse_expr_wf(s.subrange(pos + oplen, s.len() as int));
    } else if s.len() >= 1 && is_unop_char(s[0]) {
        lemma_parse_expr_wf(s.subrange(1, s.len() as int));
    } else if s.len() >= 1 && all_digits(s) {
        crate::text::lemma_digits_value_bound(s);
    }
}

impl Expression {
    /// Parses expression text.  Succeeds exactly on the strings of the
    /// expression grammar and returns the tree the grammar assigns to the
    /// text.
    pub fn from_str(s: &str) -> (r: Result<Expression, AsmError>)
        ensures
            r is Ok <==> spec_parse_expr(s@) is Some,
            r matches Ok(e) ==> Some(e@) == spec_parse_expr(s@),
            r matches Err(err) ==> err == AsmError::MalformedExpression,
        decreases s@.len(),
    {
        proof {
            lemma_find_rightmost_props(s@);
        }
        let n = s.unicode_len();
        if n == 1 && s.get_char(0) == '*' {
            return Ok(Expression::Asterisk);
        }
        match BinaryOperator::find_rightmost_in(s) {
            Option::Some((pos, opstr)) => {
                let oplen = opstr.unicode_len();
                let op = match BinaryOperator::from_str(opstr) {
                    Result::Ok(op) => op,
                    Result::Err(_) => {
                        return Err(AsmError::MalformedExpression);
                    },
                };
                let left = s.substring_char(0, pos);
                let right = s.substring_char(pos + oplen, n);
                let le = match Expression::from_str(left) {
                    Result::Ok(e) => e,
                    Result::Err(_) => {
                        return Err(AsmError::MalformedExpression);
                    },
                };
                let re = match Expression::from_str(right) {
                    Result::Ok(e) => e,
                    Result::Err(_) => {
                        return Err(AsmError::MalformedExpression);
                    },
                };
                Ok(Expression::BinaryOperation(op, Box::new(le), Box::new(re)))
            },
            Option::None => {
                if UnaryOperator::starts_with(s) {
                    let c = s.get_char(0);
                    let op = if c == '+' {
                        UnaryOperator::Plus
                    } else {
                        UnaryOperator::Minus
                    };
                    let rest = s.substring_char(1, n);
                    return match Expression::from_str(rest) {
                        Result::Ok(e) => Ok(Expression::UnaryOperation(op, Box::new(e))),
                        Result::Err(_) => Err(AsmError::MalformedExpression),
                    };
                }
                let mut i: usize = 0;
                let mut all_dig = true;
                while i < n
                    invariant
                        0 <= i <= n,
                        n == s@.len(),
                        all_dig == (forall|j: int| 0 <= j < i ==> is_digit_char(#[trigger] s@[j])),
                    decreases n - i,
                {
                    let c = s.get_char(i);
                    if !('0' <= c && c <= '9') {
                        all_dig = false;
                    }
                    i += 1;
                }
                if n >= 1 && all_dig {
                    return match Number::from_str(s) {
                        Result::Ok(num) => Ok(Expression::Number(num)),
                        Result::Err(_) => Err(AsmError::MalformedExpression),
                    };
                }
                match Symbol::new(s) {
                    Result::Ok(sym) => Ok(Expression::Symbol(sym)),
                    Result::Err(_) => Err(AsmError::MalformedExpression),
                }
            },
        }
    }
}

} // verus!
