use vstd::prelude::*;

use crate::error::AsmError;
use crate::expression::{spec_parse_expr, Expression, SpecExpr};
use crate::number::Number;
use crate::operator::BinaryOperator;
use crate::text::{find_char_from, lemma_find_char_props, spec_find_char};

verus! {

/// The whole-word field `(0:5)` as an expression.
pub open spec fn default_field_expr() -> SpecExpr {
    SpecExpr::Binary(
        BinaryOperator::Colon,
        Box::new(SpecExpr::Num(0)),
        Box::new(SpecExpr::Num(5)),
    )
}

/// A `(L:R)` sub-byte-range specifier.  It wraps the expression between
/// the parentheses; evaluation must later reduce it to a pair of small
/// integers.
#[derive(Debug, PartialEq)]
pub struct Field {
    pub expression: Expression,
}

/// Valid field text: `(E)` with `E` in the expression grammar; the value
/// is the parse of `E`.
pub open spec fn spec_parse_field(s: Seq<char>) -> Option<SpecExpr> {
    if s.len() > 2 && s[0] == '(' && s[s.len() - 1] == ')' {
        spec_parse_expr(s.subrange(1, s.len() - 1))
    } else {
        None
    }
}

impl View for Field {
    type V = SpecExpr;

    open spec fn view(&self) -> SpecExpr {
        self.expression@
    }
}

/// The whole-word field, built directly.
pub fn full_word_field() -> (f: Field)
    ensures
        f@ == default_field_expr(),
{
    let f = Field {
        expression: Expression::BinaryOperation(
            BinaryOperator::Colon,
            Box::new(Expression::Number(Number(0))),
            Box::new(Expression::Number(Number(5))),
        ),
    };
    proof {
        assert(crate::expression::view_expr(Expression::Number(Number(0))) == SpecExpr::Num(0));
        assert(crate::expression::view_expr(Expression::Number(Number(5))) == SpecExpr::Num(5));
    }
    f
}

impl Field {
    /// Parses `(E)` field text.
    pub fn from_str(s: &str) -> (r: Result<Field, AsmError>)
        ensures
            r is Ok <==> spec_parse_field(s@) is Some,
            r matches Ok(f) ==> Some(f@) == spec_parse_field(s@),
            r matches Err(e) ==> (e == AsmError::InvalidField || e
                == AsmError::MalformedExpression),
    {
        let n = s.unicode_len();
        if !(n > 2 && s.get_char(0) == '(' && s.get_char(n - 1) == ')') {
            return Err(AsmError::InvalidField);
        }
        match Expression::from_str(s.substring_char(1, n - 1)) {
            Result::Ok(e) => Ok(Field { expression: e }),
            Result::Err(_) => Err(AsmError::MalformedExpression),
        }
    }

    /// Looks for an opening parenthesis in `s`; everything from the first
    /// `(` on is parsed as the field text.  Without one, the field is built
    /// from the `default` text instead.  Also returns the index where the
    /// field text starts (the length of `s` when there is none).
    pub fn find_field_or_default(s: &str, default: &str) -> (r: Result<
        (Field, usize),
        AsmError,
    >)
        ensures
            r matches Ok(t) ==> t.1 <= s@.len(),
            r matches Err(e) ==> crate::error::is_parse_error(e),
            spec_find_char(s@, '(', 0) matches Some(i) ==> {
                &&& (r is Ok <==> spec_parse_field(s@.subrange(i, s@.len() as int)) is Some)
                &&& (r matches Ok(t) ==> t.1 == i && Some(t.0@) == spec_parse_field(
                    s@.subrange(i, s@.len() as int),
                ))
            },
            spec_find_char(s@, '(', 0) is None ==> {
                &&& (r is Ok <==> spec_parse_expr(default@) is Some)
                &&& (r matches Ok(t) ==> t.1 == s@.len() && Some(t.0@) == spec_parse_expr(
                    default@,
                ))
            },
    {
        proof {
            lemma_find_char_props(s@, '(', 0);
        }
        let n = s.unicode_len();
        match find_char_from(s, '(', 0) {
            Option::Some(idx) => {
                match Field::from_str(s.substring_char(idx, n)) {
                    Result::Ok(f) => Ok((f, idx)),
                    Result::Err(e) => Err(e),
                }
            },
            Option::None => {
                match Expression::from_str(default) {
                    Result::Ok(e) => Ok((Field { expression: e }, n)),
                    Result::Err(e) => Err(e),
                }
            },
        }
    }
}

} // verus!
