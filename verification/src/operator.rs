use vstd::prelude::*;

use crate::error::AsmError;

verus! {

/// A sign prefix of an expression.
#[derive(Debug, PartialEq, Eq, Structural, Clone, Copy)]
pub enum UnaryOperator {
    Plus,
    Minus,
}

pub open spec fn is_unop_char(c: char) -> bool {
    c == '+' || c == '-'
}

/// The unary operator named by `s`, if any.
pub open spec fn spec_unop(s: Seq<char>) -> Option<UnaryOperator> {
    if s.len() == 1 && s[0] == '+' {
        Some(UnaryOperator::Plus)
    } else if s.len() == 1 && s[0] == '-' {
        Some(UnaryOperator::Minus)
    } else {
        None
    }
}

impl UnaryOperator {
    /// Whether `s` begins with a sign character.
    pub fn starts_with(s: &str) -> (r: bool)
        ensures
            r == (s@.len() >= 1 && is_unop_char(s@[0])),
    {
        if s.unicode_len() == 0 {
            false
        } else {
            let c = s.get_char(0);
            c == '+' || c == '-'
        }
    }

    /// Parses a sign token.
    pub fn from_str(s: &str) -> (r: Result<UnaryOperator, AsmError>)
        ensures
            r is Ok <==> spec_unop(s@) is Some,
            r matches Ok(op) ==> Some(op) == spec_unop(s@),
            r matches Err(e) ==> e == AsmError::MalformedExpression,
    {
        if s.unicode_len() == 1 {
            let c = s.get_char(0);
            if c == '+' {
                return Ok(UnaryOperator::Plus);
            }
            if c == '-' {
                return Ok(UnaryOperator::Minus);
            }
        }
        Err(AsmError::MalformedExpression)
    }
}

/// A binary operator of the expression grammar.  All bind left-to-right
/// with equal precedence.
#[derive(Debug, PartialEq, Eq, Structural, Clone, Copy)]
pub enum BinaryOperator {
    Plus,
    Minus,
    Multiply,
    IntDivide,
    ScaledDivide,
    Colon,
}

pub open spec fn is_binop_char(c: char) -> bool {
    c == '+' || c == '-' || c == '*' || c == '/' || c == ':'
}

/// The binary operator named by `s`, if any.
pub open spec fn spec_binop(s: Seq<char>) -> Option<BinaryOperator> {
    if s.len() == 1 && s[0] == '+' {
        Some(BinaryOperator::Plus)
    } else if s.len() == 1 && s[0] == '-' {
        Some(BinaryOperator::Minus)
    } else if s.len() == 1 && s[0] == '*' {
        Some(BinaryOperator::Multiply)
    } else if s.len() == 1 && s[0] == '/' {
        Some(BinaryOperator::IntDivide)
    } else if s.len() == 1 && s[0] == ':' {
        Some(BinaryOperator::Colon)
    } else if s.len() == 2 && s[0] == '/' && s[1] == '/' {
        Some(BinaryOperator::ScaledDivide)
    } else {
        None
    }
}

/// Rightmost index in `[1, hi]` holding a binary-operator character.
pub open spec fn rightmost_opchar_upto(s: Seq<char>, hi: int) -> Option<int>
    decreases hi,
{
    if hi < 1 || hi >= s.len() {
        None
    } else if is_binop_char(s[hi]) {
        Some(hi)
    } else {
        rightmost_opchar_upto(s, hi - 1)
    }
}

pub proof fn lemma_rightmost_opchar_props(s: Seq<char>, hi: int)
    requires
        hi < s.len(),
    ensures
        rightmost_opchar_upto(s, hi) matches Some(p) ==> 1 <= p <= hi && is_binop_char(s[p])
            && (forall|j: int| p < j <= hi ==> !is_binop_char(#[trigger] s[j])),
        rightmost_opchar_upto(s, hi) is None ==> forall|j: int|
            1 <= j <= hi ==> !is_binop_char(#[trigger] s[j]),
    decreases hi,
{
    if hi >= 1 && !is_binop_char(s[hi]) {
        lemma_rightmost_opchar_props(s, hi - 1);
    }
}

/// Position and length of the operator at which an expression splits:
/// the rightmost binary-operator character in the interior of `s`
/// (indices strictly between the first and last character), widened to
/// the two-character `//` when the character before it is also a slash.
pub open spec fn spec_find_rightmost(s: Seq<char>) -> Option<(int, int)> {
    if s.len() < 3 {
        None
    } else {
        match rightmost_opchar_upto(s, s.len() - 2) {
            Option::None => None,
            Option::Some(p) => if s[p - 1] == '/' && s[p] == '/' {
                Some((p - 1, 2))
            } else {
                Some((p, 1))
            },
        }
    }
}

pub proof fn lemma_find_rightmost_props(s: Seq<char>)
    ensures
        spec_find_rightmost(s) matches Some(pl) ==> 0 <= pl.0 && 1 <= pl.1 <= 2 && pl.0 + pl.1
            < s.len() && s.len() >= 3,
{
    if s.len() >= 3 {
        lemma_rightmost_opchar_props(s, s.len() - 2);
    }
}

impl BinaryOperator {
    /// Finds the rightmost binary operator in the interior of `s`,
    /// returning the index where its text starts and the text itself.
    /// A sign or asterisk at either end of the string is never taken as a
    /// binary operator, which is what lets those characters be read as a
    /// unary operator or the location counter instead.
    pub fn find_rightmost_in<'a>(s: &'a str) -> (r: Option<(usize, &'a str)>)
        ensures
            r is Some <==> spec_find_rightmost(s@) is Some,
            r matches Some(t) ==> (spec_find_rightmost(s@) matches Some(pl)
                && t.0 == pl.0 && t.1@ == s@.subrange(pl.0, pl.0 + pl.1)),
    {
        let n = s.unicode_len();
        if n < 3 {
            return None;
        }
        let mut i: usize = n - 2;
        loop
            invariant
                1 <= i <= n - 2,
                n == s@.len(),
                n >= 3,
                rightmost_opchar_upto(s@, n - 2 as int) == rightmost_opchar_upto(s@, i as int),
            decreases i,
        {
            let c = s.get_char(i);
            if c == '+' || c == '-' || c == '*' || c == '/' || c == ':' {
                let p = i;
                if s.get_char(p - 1) == '/' && c == '/' {
                    return Some((p - 1, s.substring_char(p - 1, p + 1)));
                } else {
                    return Some((p, s.substring_char(p, p + 1)));
                }
            }
            if i == 1 {
                proof {
                    assert(rightmost_opchar_upto(s@, 0) is None);
                }
                return None;
            }
            i -= 1;
        }
    }

    /// Parses a binary-operator token.
    pub fn from_str(s: &str) -> (r: Result<BinaryOperator, AsmError>)
        ensures
            r is Ok <==> spec_binop(s@) is Some,
            r matches Ok(op) ==> Some(op) == spec_binop(s@),
            r matches Err(e) ==> e == AsmError::MalformedExpression,
    {
        let n = s.unicode_len();
        if n == 1 {
            let c = s.get_char(0);
            if c == '+' {
                return Ok(BinaryOperator::Plus);
            }
            if c == '-' {
                return Ok(BinaryOperator::Minus);
            }
            if c == '*' {
                return Ok(BinaryOperator::Multiply);
            }
            if c == '/' {
                return Ok(BinaryOperator::IntDivide);
            }
            if c == ':' {
                return Ok(BinaryOperator::Colon);
            }
        } else if n == 2 {
            if s.get_char(0) == '/' && s.get_char(1) == '/' {
                return Ok(BinaryOperator::ScaledDivide);
            }
        }
        Err(AsmError::MalformedExpression)
    }
}

} // verus!
