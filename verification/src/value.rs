use vstd::prelude::*;

use crate::error::AsmError;
use crate::expression::{Expression, SpecExpr};
use crate::instruction::Sign;
use crate::operator::{BinaryOperator, UnaryOperator};
use crate::symbol::Symbol;
use crate::text::str_eq;

verus! {

/// The number of magnitudes a word can hold: 64^5.
pub const WORD_RANGE: u32 = 1073741824;

/// A signed MIX value.  MIX has no two's complement: sign and magnitude
/// live apart, and negative zero is distinct from positive zero.
#[derive(Debug, PartialEq, Eq, Structural, Clone, Copy)]
pub struct MixValue {
    pub sign: Sign,
    pub magnitude: u32,
}

pub open spec fn wf_value(v: MixValue) -> bool {
    v.magnitude < WORD_RANGE
}

/// The signed integer a value denotes.
pub open spec fn signed_val(v: MixValue) -> int {
    if v.sign is Negative {
        -(v.magnitude as int)
    } else {
        v.magnitude as int
    }
}

/// The value denoting `x`: the magnitude is taken modulo the word range,
/// overflow silently discarded; a negative `x` keeps its sign.
pub open spec fn norm_signed(x: int) -> MixValue {
    if x < 0 {
        MixValue { sign: Sign::Negative, magnitude: ((-x) % (WORD_RANGE as int)) as u32 }
    } else {
        MixValue { sign: Sign::Positive, magnitude: (x % (WORD_RANGE as int)) as u32 }
    }
}

pub open spec fn flip_sign(s: Sign) -> Sign {
    if s is Positive {
        Sign::Negative
    } else {
        Sign::Positive
    }
}

/// The sign of a product or quotient.
pub open spec fn xor_sign(a: Sign, b: Sign) -> Sign {
    if a == b {
        Sign::Positive
    } else {
        Sign::Negative
    }
}

/// What evaluating an expression can come to.  `Undefined` is recoverable:
/// the driver turns it into a pending patch.
pub enum EvalResult {
    Val(MixValue),
    Undefined(Seq<char>),
    DivZero,
}

/// One binary operation on values.  Addition and subtraction are
/// algebraic; multiplication and the divisions work on magnitudes with the
/// sign of the operand signs' product; `//` is the scaled division
/// `floor(a * 64^5 / b) mod 64^5`; `:` packs a field pair as `8a + b`.
pub open spec fn spec_apply_binop(op: BinaryOperator, a: MixValue, b: MixValue) -> EvalResult {
    match op {
        BinaryOperator::Plus => EvalResult::Val(norm_signed(signed_val(a) + signed_val(b))),
        BinaryOperator::Minus => EvalResult::Val(norm_signed(signed_val(a) - signed_val(b))),
        BinaryOperator::Multiply => EvalResult::Val(
            MixValue {
                sign: xor_sign(a.sign, b.sign),
                magnitude: ((a.magnitude as int * b.magnitude as int) % (
                WORD_RANGE as int)) as u32,
            },
        ),
        BinaryOperator::IntDivide => if b.magnitude == 0 {
            EvalResult::DivZero
        } else {
            EvalResult::Val(
                MixValue {
                    sign: xor_sign(a.sign, b.sign),
                    magnitude: (a.magnitude as int / b.magnitude as int) as u32,
                },
            )
        },
        BinaryOperator::ScaledDivide => if b.magnitude == 0 {
            EvalResult::DivZero
        } else {
            EvalResult::Val(
                MixValue {
                    sign: xor_sign(a.sign, b.sign),
                    magnitude: ((a.magnitude as int * WORD_RANGE as int / b.magnitude as int) % (
                    WORD_RANGE as int)) as u32,
                },
            )
        },
        BinaryOperator::Colon => EvalResult::Val(
            norm_signed(8 * signed_val(a) + signed_val(b)),
        ),
    }
}

/// Expression evaluation against the location counter `loc` and the
/// symbol environment `env`, bottom-up.
pub open spec fn spec_eval(e: SpecExpr, loc: u32, env: Map<Seq<char>, MixValue>) -> EvalResult
    decreases e,
{
    match e {
        SpecExpr::Asterisk => EvalResult::Val(norm_signed(loc as int)),
        SpecExpr::Num(n) => EvalResult::Val(norm_signed(n)),
        SpecExpr::Sym(name) => if env.dom().contains(name) {
            EvalResult::Val(env[name])
        } else {
            EvalResult::Undefined(name)
        },
        SpecExpr::Unary(op, sub) => match spec_eval(*sub, loc, env) {
            EvalResult::Val(v) => EvalResult::Val(
                if op is Minus {
                    MixValue { sign: flip_sign(v.sign), magnitude: v.magnitude }
                } else {
                    v
                },
            ),
            other => other,
        },
        SpecExpr::Binary(op, l, r) => match spec_eval(*l, loc, env) {
            EvalResult::Val(a) => match spec_eval(*r, loc, env) {
                EvalResult::Val(b) => spec_apply_binop(op, a, b),
                other => other,
            },
            other => other,
        },
    }
}

/// Every value of the environment is in range.
pub open spec fn wf_env(env: Map<Seq<char>, MixValue>) -> bool {
    forall|k: Seq<char>| env.dom().contains(k) ==> wf_value(#[trigger] env[k])
}

/// A successful evaluation in a well-formed environment is in range.
pub proof fn lemma_eval_wf(e: SpecExpr, loc: u32, env: Map<Seq<char>, MixValue>)
    requires
        wf_env(env),
    ensures
        spec_eval(e, loc, env) matches EvalResult::Val(v) ==> wf_value(v),
    decreases e,
{
    match e {
        SpecExpr::Unary(_, sub) => {
            lemma_eval_wf(*sub, loc, env);
        },
        SpecExpr::Binary(op, l, r) => {
            lemma_eval_wf(*l, loc, env);
            lemma_eval_wf(*r, loc, env);
        },
        _ => {},
    }
}

// ---------------------------------------------------------------------------
// The symbol table.
// ---------------------------------------------------------------------------

/// The per-assembly mapping from symbol to resolved value: an address for
/// location symbols, an arbitrary value for EQU-defined ones.  Entries are
/// added exactly once each.
#[derive(Debug)]
pub struct SymbolTable {
    pub entries: Vec<(Symbol, MixValue)>,
}

pub open spec fn table_map(s: Seq<(Symbol, MixValue)>) -> Map<Seq<char>, MixValue>
    decreases s.len(),
{
    if s.len() == 0 {
        Map::empty()
    } else {
        table_map(s.drop_last()).insert(s.last().0@, s.last().1)
    }
}

impl View for SymbolTable {
    type V = Map<Seq<char>, MixValue>;

    open spec fn view(&self) -> Map<Seq<char>, MixValue> {
        table_map(self.entries@)
    }
}

impl SymbolTable {
    /// An empty table.
    pub fn new() -> (t: SymbolTable)
        ensures
            t@ == Map::<Seq<char>, MixValue>::empty(),
    {
        SymbolTable { entries: Vec::new() }
    }

    /// The value bound to `name`, if any.
    pub fn lookup(&self, name: &str) -> (r: Option<MixValue>)
        ensures
            r is Some <==> self@.dom().contains(name@),
            r matches Some(v) ==> v == self@[name@],
    {
        proof {
            assert(self.entries@.subrange(0, self.entries@.len() as int) =~= self.entries@);
        }
        let mut i: usize = self.entries.len();
        while i > 0
            invariant
                0 <= i <= self.entries@.len(),
                table_map(self.entries@).dom().contains(name@) == table_map(
                    self.entries@.subrange(0, i as int),
                ).dom().contains(name@),
                table_map(self.entries@).dom().contains(name@) ==> table_map(self.entries@)[name@]
                    == table_map(self.entries@.subrange(0, i as int))[name@],
                self.entries@.subrange(0, self.entries@.len() as int) == self.entries@,
            decreases i,
        {
            let entry = &self.entries[i - 1];
            proof {
                assert(self.entries@.subrange(0, i as int).drop_last() =~= self.entries@.subrange(
                    0,
                    i - 1 as int,
                ));
                assert(self.entries@.subrange(0, i as int).last() == self.entries@[i - 1]);
            }
            if str_eq(entry.0.0.as_str(), name) {
                return Some(entry.1);
            }
            i -= 1;
        }
        proof {
            assert(self.entries@.subrange(0, 0) =~= Seq::<(Symbol, MixValue)>::empty());
        }
        None
    }

    /// Binds `name` to `v`; refuses a name already bound.
    pub fn define(&mut self, name: Symbol, v: MixValue) -> (r: Result<(), AsmError>)
        ensures
            r is Ok <==> !old(self)@.dom().contains(name@),
            r is Ok ==> final(self)@ == old(self)@.insert(name@, v),
            r is Err ==> *final(self) == *old(self) && r == Err::<(), AsmError>(
                AsmError::DuplicateSymbol,
            ),
    {
        match self.lookup(name.0.as_str()) {
            Option::Some(_) => Err(AsmError::DuplicateSymbol),
            Option::None => {
                self.entries.push((name, v));
                proof {
                    assert(self.entries@.drop_last() =~= old(self).entries@);
                }
                Ok(())
            },
        }
    }
}

// ---------------------------------------------------------------------------
// Executable evaluation.
// ---------------------------------------------------------------------------

/// The signed integer `v` denotes.
pub fn signed_of(v: MixValue) -> (r: i64)
    requires
        wf_value(v),
    ensures
        r == signed_val(v),
{
    match v.sign {
        Sign::Negative => -(v.magnitude as i64),
        Sign::Positive => v.magnitude as i64,
    }
}

/// Normalize an algebraic result into a value.
pub fn norm_signed_exec(x: i64) -> (r: MixValue)
    requires
        i64::MIN < x,
    ensures
        r == norm_signed(x as int),
        wf_value(r),
{
    if x < 0 {
        MixValue {
            sign: Sign::Negative,
            magnitude: (((-x) as u64) % (WORD_RANGE as u64)) as u32,
        }
    } else {
        MixValue { sign: Sign::Positive, magnitude: ((x as u64) % (WORD_RANGE as u64)) as u32 }
    }
}

/// One binary operation on values.
pub fn apply_binop(op: BinaryOperator, a: MixValue, b: MixValue) -> (r: Result<MixValue, AsmError>)
    requires
        wf_value(a),
        wf_value(b),
    ensures
        match spec_apply_binop(op, a, b) {
            EvalResult::Val(v) => r == Ok::<MixValue, AsmError>(v) && wf_value(v),
            EvalResult::DivZero => r == Err::<MixValue, AsmError>(AsmError::DivisionByZero),
            EvalResult::Undefined(_) => false,
        },
{
    let xsign = match (a.sign, b.sign) {
        (Sign::Positive, Sign::Positive) => Sign::Positive,
        (Sign::Negative, Sign::Negative) => Sign::Positive,
        _ => Sign::Negative,
    };
    match op {
        BinaryOperator::Plus => Ok(norm_signed_exec(signed_of(a) + signed_of(b))),
        BinaryOperator::Minus => Ok(norm_signed_exec(signed_of(a) - signed_of(b))),
        BinaryOperator::Multiply => {
            proof {
                vstd::arithmetic::mul::lemma_mul_upper_bound(
                    a.magnitude as int,
                    0x3FFFFFFF,
                    b.magnitude as int,
                    0x3FFFFFFF,
                );
            }
            let m = ((a.magnitude as u64) * (b.magnitude as u64)) % (WORD_RANGE as u64);
            Ok(MixValue { sign: xsign, magnitude: m as u32 })
        },
        BinaryOperator::IntDivide => {
            if b.magnitude == 0 {
                Err(AsmError::DivisionByZero)
            } else {
                Ok(MixValue { sign: xsign, magnitude: a.magnitude / b.magnitude })
            }
        },
        BinaryOperator::ScaledDivide => {
            if b.magnitude == 0 {
                Err(AsmError::DivisionByZero)
            } else {
                proof {
                    vstd::arithmetic::mul::lemma_mul_upper_bound(
                        a.magnitude as int,
                        0x3FFFFFFF,
                        WORD_RANGE as int,
                        0x40000000,
                    );
                }
                let m = ((a.magnitude as u64) * (WORD_RANGE as u64) / (b.magnitude as u64)) % (
                WORD_RANGE as u64);
                Ok(MixValue { sign: xsign, magnitude: m as u32 })
            }
        },
        BinaryOperator::Colon => {
            let x = 8 * signed_of(a) + signed_of(b);
            Ok(norm_signed_exec(x))
        },
    }
}

impl Expression {
    /// Evaluates the expression against the location counter and symbol
    /// table.  An unknown symbol yields `UndefinedSymbol` with its name,
    /// the one recoverable failure.
    pub fn evaluate(&self, loc: u32, table: &SymbolTable) -> (r: Result<MixValue, AsmError>)
        requires
            wf_env(table@),
        ensures
            match spec_eval(self@, loc, table@) {
                EvalResult::Val(v) => r == Ok::<MixValue, AsmError>(v) && wf_value(v),
                EvalResult::Undefined(name) => r matches Err(e) && (e matches
                    AsmError::UndefinedSymbol(n) && n@ == name),
                EvalResult::DivZero => r == Err::<MixValue, AsmError>(AsmError::DivisionByZero),
            },
        decreases *self,
    {
        proof {
            lemma_eval_wf(self@, loc, table@);
        }
        match self {
            Expression::Asterisk => Ok(MixValue {
                sign: Sign::Positive,
                magnitude: loc % WORD_RANGE,
            }),
            Expression::Number(n) => Ok(MixValue {
                sign: Sign::Positive,
                magnitude: n.0 % WORD_RANGE,
            }),
            Expression::Symbol(sym) => match table.lookup(sym.0.as_str()) {
                Option::Some(v) => Ok(v),
                Option::None => Err(AsmError::UndefinedSymbol(sym.0.clone())),
            },
            Expression::UnaryOperation(op, sub) => {
                let v = match sub.evaluate(loc, table) {
                    Result::Ok(v) => v,
                    Result::Err(e) => {
                        return Err(e);
                    },
                };
                match op {
                    UnaryOperator::Plus => Ok(v),
                    UnaryOperator::Minus => {
                        let s = match v.sign {
                            Sign::Positive => Sign::Negative,
                            Sign::Negative => Sign::Positive,
                        };
                        Ok(MixValue { sign: s, magnitude: v.magnitude })
                    },
                }
            },
            Expression::BinaryOperation(op, l, r) => {
                let a = match l.evaluate(loc, table) {
                    Result::Ok(v) => v,
                    Result::Err(e) => {
                        return Err(e);
                    },
                };
                let b = match r.evaluate(loc, table) {
                    Result::Ok(v) => v,
                    Result::Err(e) => {
                        return Err(e);
                    },
                };
                apply_binop(*op, a, b)
            },
        }
    }
}

} // verus!
