use vstd::prelude::*;

use crate::expression::{
    lemma_parse_expr_wf, spec_parse_expr, view_expr, wf_spec_expr, Expression, SpecExpr,
};
use crate::number::is_valid_number;
use crate::operator::{
    is_binop_char, lemma_find_rightmost_props, lemma_rightmost_opchar_props, rightmost_opchar_upto,
    spec_binop, spec_find_rightmost, BinaryOperator, UnaryOperator,
};
use crate::symbol::is_valid_symbol;
use crate::text::{
    all_digits, digit_val, digits_value, is_digit_char, is_letter, is_symbol_char,
    pow10,
};

verus! {

// ---------------------------------------------------------------------------
// The canonical text of an expression tree.
// ---------------------------------------------------------------------------

pub open spec fn unop_char(op: UnaryOperator) -> char {
    if op is Plus {
        '+'
    } else {
        '-'
    }
}

pub open spec fn binop_text(op: BinaryOperator) -> Seq<char> {
    match op {
        BinaryOperator::Plus => seq!['+'],
        BinaryOperator::Minus => seq!['-'],
        BinaryOperator::Multiply => seq!['*'],
        BinaryOperator::IntDivide => seq!['/'],
        BinaryOperator::ScaledDivide => seq!['/', '/'],
        BinaryOperator::Colon => seq![':'],
    }
}

pub open spec fn digit_char(d: int) -> char {
    ((48 + d) as u8) as char
}

/// The decimal digits of `n`, most significant first, no leading zeros.
pub open spec fn spec_digits(n: int) -> Seq<char>
    decreases n,
{
    if n <= 9 {
        seq![digit_char(if n < 0 { 0 } else { n })]
    } else {
        spec_digits(n / 10) + seq![digit_char(n % 10)]
    }
}

/// The canonical text of a tree: left-to-right infix with no parentheses.
/// Parsing splits at the rightmost operator, so this text parses back to
/// the same tree.
pub open spec fn spec_unparse(e: SpecExpr) -> Seq<char>
    decreases e,
{
    match e {
        SpecExpr::Asterisk => seq!['*'],
        SpecExpr::Sym(name) => name,
        SpecExpr::Num(n) => spec_digits(n),
        SpecExpr::Unary(op, sub) => seq![unop_char(op)] + spec_unparse(*sub),
        SpecExpr::Binary(op, l, r) => spec_unparse(*l) + binop_text(op) + spec_unparse(*r),
    }
}

// ---------------------------------------------------------------------------
// Facts about digit strings.
// ---------------------------------------------------------------------------

pub proof fn lemma_spec_digits_props(n: int)
    requires
        0 <= n,
    ensures
        spec_digits(n).len() >= 1,
        all_digits(spec_digits(n)),
        digits_value(spec_digits(n)) == n,
    decreases n,
{
    if n <= 9 {
        let s = spec_digits(n);
        assert(s =~= seq![digit_char(n)]);
        assert(is_digit_char(digit_char(n)));
        assert(s.drop_last() =~= Seq::<char>::empty());
        assert(digits_value(s) == 10 * digits_value(s.drop_last()) + digit_val(digit_char(n)));
    } else {
        lemma_spec_digits_props(n / 10);
        let a = spec_digits(n / 10);
        let s = spec_digits(n);
        assert(s =~= a + seq![digit_char(n % 10)]);
        assert(s.drop_last() =~= a);
        assert(s.last() == digit_char(n % 10));
        assert(is_digit_char(digit_char(n % 10)));
        assert(forall|i: int| 0 <= i < s.len() - 1 ==> s[i] == a[i]);
        assert(digits_value(s) == 10 * digits_value(a) + digit_val(digit_char(n % 10)));
    }
}

/// A value below 10^k prints in at most k digits.
pub proof fn lemma_spec_digits_len(n: int, k: int)
    requires
        0 <= n,
        1 <= k,
        n < pow10(k),
    ensures
        spec_digits(n).len() <= k,
    decreases n,
{
    if n > 9 {
        assert(pow10(k) == 10 * pow10(k - 1));
        assert(n / 10 < pow10(k - 1));
        assert(1 <= k - 1) by {
            crate::text::lemma_pow10_pos(k - 1);
            if k - 1 < 1 {
                assert(pow10(k - 1) == 1);
            }
        }
        lemma_spec_digits_len(n / 10, k - 1);
    }
}

// ---------------------------------------------------------------------------
// The round-trip law.
// ---------------------------------------------------------------------------

/// The leaves of the grammar: no operator inside.
pub open spec fn is_atom(e: SpecExpr) -> bool {
    match e {
        SpecExpr::Asterisk => true,
        SpecExpr::Sym(_) => true,
        SpecExpr::Num(_) => true,
        _ => false,
    }
}

/// The last character of serialized text is a symbol character or `*` —
/// in particular never a slash, so serialization cannot run an operator
/// into a spurious `//`.
pub proof fn lemma_unparse_last(e: SpecExpr)
    requires
        wf_spec_expr(e),
    ensures
        spec_unparse(e).len() >= 1,
        is_symbol_char(spec_unparse(e).last()) || spec_unparse(e).last() == '*',
    decreases e,
{
    match e {
        SpecExpr::Asterisk => {},
        SpecExpr::Sym(name) => {
            assert(is_symbol_char(name[name.len() - 1]));
        },
        SpecExpr::Num(n) => {
            lemma_spec_digits_props(n);
            let u = spec_digits(n);
            assert(is_digit_char(u[u.len() - 1]));
        },
        SpecExpr::Unary(op, sub) => {
            lemma_unparse_last(*sub);
            assert(spec_unparse(e).last() == spec_unparse(*sub).last());
        },
        SpecExpr::Binary(op, l, r) => {
            lemma_unparse_last(*r);
            assert(spec_unparse(e).last() == spec_unparse(*r).last());
        },
    }
}

/// If no index of `[1, len-2]` holds an operator character, the split
/// finder finds nothing.
pub proof fn lemma_no_opchar_no_find(u: Seq<char>)
    requires
        forall|j: int| 1 <= j <= u.len() - 2 ==> !is_binop_char(#[trigger] u[j]),
    ensures
        spec_find_rightmost(u) is None,
{
    if u.len() >= 3 {
        lemma_rightmost_opchar_props(u, u.len() - 2);
    }
}

/// An atom's text parses back to the atom, and carries no operator
/// character except the sole `*` of the location counter.
pub proof fn lemma_atom_text(e: SpecExpr)
    requires
        is_atom(e),
        wf_spec_expr(e),
    ensures
        spec_unparse(e).len() >= 1,
        spec_parse_expr(spec_unparse(e)) == Some(e),
        e is Asterisk ==> spec_unparse(e) == seq!['*'],
        !(e is Asterisk) ==> forall|i: int|
            0 <= i < spec_unparse(e).len() ==> !is_binop_char(#[trigger] spec_unparse(e)[i]),
{
    let u = spec_unparse(e);
    match e {
        SpecExpr::Asterisk => {
            assert(u =~= seq!['*']);
            assert(spec_parse_expr(u) == Some(SpecExpr::Asterisk));
        },
        SpecExpr::Sym(name) => {
            assert(u == name);
            assert(forall|i: int| 0 <= i < u.len() ==> is_symbol_char(#[trigger] u[i]));
            assert(forall|i: int| 0 <= i < u.len() ==> !is_binop_char(#[trigger] u[i]));
            lemma_no_opchar_no_find(u);
            let j = choose|j: int| 0 <= j < name.len() && is_letter(name[j]);
            assert(!is_digit_char(name[j]));
            assert(!all_digits(u));
            assert(spec_parse_expr(u) == Some(SpecExpr::Sym(name)));
        },
        SpecExpr::Num(n) => {
            lemma_spec_digits_props(n);
            assert(u32::MAX < pow10(10)) by {
                reveal_with_fuel(pow10, 11);
            }
            lemma_spec_digits_len(n, 10);
            assert(all_digits(u));
            assert(forall|i: int| 0 <= i < u.len() ==> !is_binop_char(#[trigger] u[i]));
            lemma_no_opchar_no_find(u);
            assert(is_valid_number(u));
            assert(spec_parse_expr(u) == Some(SpecExpr::Num(n)));
        },
        _ => {},
    }
}

/// Text whose only operator character, if any, is its final character
/// parses to an atom.
pub proof fn lemma_parse_atom_shape(t: Seq<char>)
    requires
        spec_parse_expr(t) is Some,
        forall|j: int| 0 <= j < t.len() - 1 ==> !is_binop_char(#[trigger] t[j]),
    ensures
        is_atom(spec_parse_expr(t).unwrap()),
{
    lemma_no_opchar_no_find(t);
    if t.len() >= 1 && crate::operator::is_unop_char(t[0]) {
        assert(is_binop_char(t[0]));
        assert(t.len() == 1);
        let sub = t.subrange(1, t.len() as int);
        assert(sub.len() == 0);
        assert(!is_valid_symbol(sub));
        assert(spec_parse_expr(sub) is None);
        assert(false);
    }
}

/// If `s[p]` is an operator character and nothing after it up to `hi`
/// is, the rightmost scan lands on `p`.
pub proof fn lemma_rightmost_at(s: Seq<char>, hi: int, p: int)
    requires
        1 <= p <= hi < s.len(),
        is_binop_char(s[p]),
        forall|j: int| p < j <= hi ==> !is_binop_char(#[trigger] s[j]),
    ensures
        rightmost_opchar_upto(s, hi) == Some(p),
    decreases hi,
{
    if hi > p {
        lemma_rightmost_at(s, hi - 1, p);
    }
}

/// Round-trip: whatever tree some text parses to, the tree's canonical
/// serialization parses back to the identical tree.  This holds because
/// serialization re-creates the shape the rightmost-split scan keys on:
/// the right operand of every operator is an atom, so the rightmost
/// interior operator of the serialized text is exactly the node's own.
pub proof fn theorem_parse_unparse_roundtrip(s: Seq<char>)
    ensures
        spec_parse_expr(s) matches Some(e) ==> spec_parse_expr(spec_unparse(e)) == Some(e),
    decreases s.len(),
{
    if spec_parse_expr(s) is Some {
        let e = spec_parse_expr(s).unwrap();
        lemma_parse_expr_wf(s);
        lemma_find_rightmost_props(s);
        if s.len() == 1 && s[0] == '*' {
            assert(spec_unparse(e) =~= s);
        } else if spec_find_rightmost(s) is Some {
            let (pos, oplen) = spec_find_rightmost(s).unwrap();
            let ltext = s.subrange(0, pos);
            let optext = s.subrange(pos, pos + oplen);
            let rtext = s.subrange(pos + oplen, s.len() as int);
            let op = spec_binop(optext).unwrap();
            let el = spec_parse_expr(ltext).unwrap();
            let er = spec_parse_expr(rtext).unwrap();
            assert(e == SpecExpr::Binary(op, Box::new(el), Box::new(er)));
            lemma_parse_expr_wf(ltext);
            lemma_parse_expr_wf(rtext);
            lemma_rightmost_opchar_props(s, s.len() - 2);
            let p0 = rightmost_opchar_upto(s, s.len() - 2).unwrap();
            assert(pos + oplen == p0 + 1);
            assert(rtext.len() >= 1);
            assert forall|j: int| 0 <= j < rtext.len() - 1 implies !is_binop_char(
                #[trigger] rtext[j],
            ) by {
                assert(rtext[j] == s[p0 + 1 + j]);
            }
            lemma_parse_atom_shape(rtext);
            lemma_atom_text(er);
            lemma_unparse_last(el);
            theorem_parse_unparse_roundtrip(ltext);
            let ul = spec_unparse(el);
            let ur = spec_unparse(er);
            let u = spec_unparse(e);
            assert(u == ul + binop_text(op) + ur);
            assert(binop_text(op) =~= optext);
            let posu = ul.len() as int;
            let iu = posu + oplen - 1;
            assert(u.len() == ul.len() + oplen + ur.len());
            assert(is_binop_char(u[iu]));
            assert forall|j: int| iu < j <= u.len() - 2 implies !is_binop_char(
                #[trigger] u[j],
            ) by {
                if er is Asterisk {
                    assert(ur.len() == 1);
                } else {
                    assert(u[j] == ur[j - posu - oplen]);
                }
            }
            lemma_rightmost_at(u, u.len() - 2, iu);
            if oplen == 2 {
                assert(u[iu - 1] == '/' && u[iu] == '/');
                assert(spec_find_rightmost(u) == Some((posu, 2int)));
            } else {
                assert(u[iu] == optext[0]);
                if optext[0] == '/' {
                    assert(u[iu - 1] == ul.last());
                    assert(u[iu - 1] != '/');
                }
                assert(spec_find_rightmost(u) == Some((posu, 1int)));
            }
            assert(u.subrange(0, posu) =~= ul);
            assert(u.subrange(posu, posu + oplen) =~= optext);
            assert(u.subrange(posu + oplen, u.len() as int) =~= ur);
            assert(spec_parse_expr(u) == Some(SpecExpr::Binary(op, Box::new(el), Box::new(er))));
        } else if s.len() >= 1 && crate::operator::is_unop_char(s[0]) {
            let rest = s.subrange(1, s.len() as int);
            let e1 = spec_parse_expr(rest).unwrap();
            lemma_parse_expr_wf(rest);
            if s.len() >= 3 {
                lemma_rightmost_opchar_props(s, s.len() - 2);
            }
            assert forall|j: int| 0 <= j < rest.len() - 1 implies !is_binop_char(
                #[trigger] rest[j],
            ) by {
                assert(rest[j] == s[1 + j]);
            }
            lemma_parse_atom_shape(rest);
            lemma_atom_text(e1);
            let u1 = spec_unparse(e1);
            let u = spec_unparse(e);
            let op = if s[0] == '+' {
                UnaryOperator::Plus
            } else {
                UnaryOperator::Minus
            };
            assert(e == SpecExpr::Unary(op, Box::new(e1)));
            assert(u == seq![unop_char(op)] + u1);
            assert(unop_char(op) == s[0]);
            assert(u.len() >= 2);
            assert forall|j: int| 1 <= j <= u.len() - 2 implies !is_binop_char(
                #[trigger] u[j],
            ) by {
                if e1 is Asterisk {
                    assert(u1.len() == 1);
                } else {
                    assert(u[j] == u1[j - 1]);
                }
            }
            lemma_no_opchar_no_find(u);
            assert(u.subrange(1, u.len() as int) =~= u1);
            assert(spec_parse_expr(u) == Some(SpecExpr::Unary(op, Box::new(e1))));
        } else {
            lemma_atom_text(e);
        }
    }
}

// ---------------------------------------------------------------------------
// Executable serialization.
// ---------------------------------------------------------------------------

fn digit_str(d: u8) -> (r: &'static str)
    requires
        d <= 9,
    ensures
        r@ =~= seq![digit_char(d as int)],
{
    proof {
        reveal_strlit("0");
        reveal_strlit("1");
        reveal_strlit("2");
        reveal_strlit("3");
        reveal_strlit("4");
        reveal_strlit("5");
        reveal_strlit("6");
        reveal_strlit("7");
        reveal_strlit("8");
        reveal_strlit("9");
    }
    if d == 0 {
        "0"
    } else if d == 1 {
        "1"
    } else if d == 2 {
        "2"
    } else if d == 3 {
        "3"
    } else if d == 4 {
        "4"
    } else if d == 5 {
        "5"
    } else if d == 6 {
        "6"
    } else if d == 7 {
        "7"
    } else if d == 8 {
        "8"
    } else {
        "9"
    }
}

fn u32_to_string(n: u32) -> (r: String)
    ensures
        r@ == spec_digits(n as int),
    decreases n,
{
    if n <= 9 {
        let s = digit_str(n as u8).to_owned();
        proof {
            assert(s@ =~= spec_digits(n as int));
        }
        s
    } else {
        let mut s = u32_to_string(n / 10);
        s.append(digit_str((n % 10) as u8));
        proof {
            assert(s@ =~= spec_digits(n as int));
        }
        s
    }
}

fn binop_str(op: &BinaryOperator) -> (r: &'static str)
    ensures
        r@ == binop_text(*op),
{
    proof {
        reveal_strlit("+");
        reveal_strlit("-");
        reveal_strlit("*");
        reveal_strlit("/");
        reveal_strlit("//");
        reveal_strlit(":");
    }
    let r = match op {
        BinaryOperator::Plus => "+",
        BinaryOperator::Minus => "-",
        BinaryOperator::Multiply => "*",
        BinaryOperator::IntDivide => "/",
        BinaryOperator::ScaledDivide => "//",
        BinaryOperator::Colon => ":",
    };
    proof {
        assert(r@ =~= binop_text(*op));
    }
    r
}

impl Expression {
    /// The canonical text of the tree: left-to-right infix, no
    /// parentheses, numbers without leading zeros.
    pub fn to_text(&self) -> (r: String)
        ensures
            r@ == spec_unparse(self@),
        decreases *self,
    {
        match self {
            Expression::Asterisk => {
                proof {
                    reveal_strlit("*");
                }
                let s = String::from_str("*");
                proof {
                    assert(s@ =~= seq!['*']);
                }
                s
            },
            Expression::Symbol(sym) => sym.0.clone(),
            Expression::Number(n) => u32_to_string(n.0),
            Expression::UnaryOperation(op, sub) => {
                proof {
                    reveal_strlit("+");
                    reveal_strlit("-");
                }
                let mut s = match op {
                    UnaryOperator::Plus => String::from_str("+"),
                    UnaryOperator::Minus => String::from_str("-"),
                };
                let sub_text = sub.to_text();
                s.append(sub_text.as_str());
                proof {
                    assert(s@ =~= seq![unop_char(*op)] + spec_unparse(view_expr(**sub)));
                }
                s
            },
            Expression::BinaryOperation(op, l, r) => {
                let mut s = l.to_text();
                s.append(binop_str(op));
                let rtext = r.to_text();
                s.append(rtext.as_str());
                proof {
                    assert(s@ =~= spec_unparse(view_expr(**l)) + binop_text(*op) + spec_unparse(
                        view_expr(**r),
                    ));
                }
                s
            },
        }
    }
}

} // verus!
