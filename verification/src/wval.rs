use vstd::prelude::*;

use crate::error::AsmError;
use crate::expression::{spec_parse_expr, Expression, SpecExpr};
use crate::field::{default_field_expr, full_word_field, spec_parse_field, Field};
use crate::number::Number;
use crate::text::{find_char_from, lemma_find_char_props, spec_find_char};

verus! {

/// The mathematical form of a W-value: a sequence of
/// (expression, field expression) components, either plain or wrapped as a
/// future-reference literal.
pub enum WValView {
    Future(Seq<(SpecExpr, SpecExpr)>),
    Plain(Seq<(SpecExpr, SpecExpr)>),
}

/// A "word value": a comma-separated list of expression(field) components
/// that together build one machine word.  Wrapped in `=...=` it instead
/// asks the assembler for a literal-constant cell and stands for that
/// cell's address.
#[derive(Debug, PartialEq)]
pub enum WVal {
    FutureRef(FutureRef),
    WValInner(WValInner),
}

/// A W-value wrapped in `=` signs: the assembler stores the inner value in
/// a literal-pool cell and the text resolves to that cell's address.
#[derive(Debug, PartialEq)]
pub struct FutureRef {
    pub wval: WValInner,
}

/// The comma-separated component list of a W-value.
#[derive(Debug, PartialEq)]
pub struct WValInner {
    pub components: Vec<WValComponent>,
}

/// One component: an expression and the field that selects where its value
/// lands in the word.
#[derive(Debug, PartialEq)]
pub struct WValComponent {
    pub expression: Expression,
    pub field: Field,
}

impl View for WValComponent {
    type V = (SpecExpr, SpecExpr);

    open spec fn view(&self) -> (SpecExpr, SpecExpr) {
        (self.expression@, self.field@)
    }
}

impl View for WValInner {
    type V = Seq<(SpecExpr, SpecExpr)>;

    open spec fn view(&self) -> Seq<(SpecExpr, SpecExpr)> {
        self.components@.map_values(|c: WValComponent| c@)
    }
}

impl View for FutureRef {
    type V = Seq<(SpecExpr, SpecExpr)>;

    open spec fn view(&self) -> Seq<(SpecExpr, SpecExpr)> {
        self.wval@
    }
}

impl View for WVal {
    type V = WValView;

    open spec fn view(&self) -> WValView {
        match self {
            WVal::FutureRef(f) => WValView::Future(f@),
            WVal::WValInner(w) => WValView::Plain(w@),
        }
    }
}

/// Valid component text: an optional `(...)` field suffix starting at the
/// first `(`, the rest an expression.  A missing field means `(0:5)`, the
/// whole word.
pub open spec fn spec_parse_wval_component(s: Seq<char>) -> Option<(SpecExpr, SpecExpr)> {
    let end = match spec_find_char(s, '(', 0) {
        Option::Some(i) => i,
        Option::None => s.len() as int,
    };
    let fe = match spec_find_char(s, '(', 0) {
        Option::Some(i) => spec_parse_field(s.subrange(i, s.len() as int)),
        Option::None => spec_parse_expr("0:5"@),
    };
    let ee = spec_parse_expr(s.subrange(0, end));
    if fe is Some && ee is Some {
        Some((ee.unwrap(), fe.unwrap()))
    } else {
        None
    }
}

/// Valid component-list text: components split at every comma, each valid.
pub open spec fn spec_parse_components(s: Seq<char>) -> Option<Seq<(SpecExpr, SpecExpr)>>
    decreases s.len(),
    via spec_parse_components_dec
{
    match spec_find_char(s, ',', 0) {
        Option::None => match spec_parse_wval_component(s) {
            Option::Some(c) => Some(seq![c]),
            Option::None => None,
        },
        Option::Some(i) => {
            let head = spec_parse_wval_component(s.subrange(0, i));
            let tail = spec_parse_components(s.subrange(i + 1, s.len() as int));
            if head is Some && tail is Some {
                Some(seq![head.unwrap()] + tail.unwrap())
            } else {
                None
            }
        },
    }
}

#[via_fn]
proof fn spec_parse_components_dec(s: Seq<char>) {
    lemma_find_char_props(s, ',', 0);
}

/// Valid W-value text: at most 10 characters; `=...=` marks a future
/// reference whose inside is a component list; anything else is a plain
/// component list.
pub open spec fn spec_parse_wval(s: Seq<char>) -> Option<WValView> {
    if s.len() > 10 {
        None
    } else if s.len() >= 1 && s[0] == '=' && s[s.len() - 1] == '=' {
        match spec_parse_future_ref(s) {
            Option::Some(cs) => Some(WValView::Future(cs)),
            Option::None => None,
        }
    } else {
        match spec_parse_components(s) {
            Option::Some(cs) => Some(WValView::Plain(cs)),
            Option::None => None,
        }
    }
}

/// Valid future-reference text: `=W=` with a component list between the
/// two `=` signs.
pub open spec fn spec_parse_future_ref(s: Seq<char>) -> Option<Seq<(SpecExpr, SpecExpr)>> {
    if s.len() > 2 && s[0] == '=' && s[s.len() - 1] == '=' {
        spec_parse_components(s.subrange(1, s.len() - 1))
    } else {
        None
    }
}

/// The W-value `0`: a single zero component filling the whole word.
pub open spec fn zero_wval_view() -> WValView {
    WValView::Plain(seq![(SpecExpr::Num(0), default_field_expr())])
}

/// The W-value `0`, built directly; it stands in for an empty base
/// address.
pub fn zero_wval() -> (w: WVal)
    ensures
        w@ == zero_wval_view(),
{
    let mut v: Vec<WValComponent> = Vec::new();
    v.push(WValComponent { expression: Expression::Number(Number(0)), field: full_word_field() });
    let inner = WValInner { components: v };
    proof {
        assert(inner@ =~= seq![(SpecExpr::Num(0), default_field_expr())]);
    }
    WVal::WValInner(inner)
}

impl WValComponent {
    /// Parses one component.
    pub fn from_str(s: &str) -> (r: Result<WValComponent, AsmError>)
        ensures
            r is Ok <==> spec_parse_wval_component(s@) is Some,
            r matches Ok(c) ==> Some(c@) == spec_parse_wval_component(s@),
            r matches Err(e) ==> crate::error::is_parse_error(e),
    {
        proof {
            lemma_find_char_props(s@, '(', 0);
        }
        let (field, idx) = match Field::find_field_or_default(s, "0:5") {
            Result::Ok(t) => t,
            Result::Err(e) => {
                return Err(e);
            },
        };
        match Expression::from_str(s.substring_char(0, idx)) {
            Result::Ok(e) => Ok(WValComponent { expression: e, field }),
            Result::Err(e) => Err(e),
        }
    }
}

impl WValInner {
    /// Parses a comma-separated component list.
    pub fn from_str(s: &str) -> (r: Result<WValInner, AsmError>)
        ensures
            r is Ok <==> spec_parse_components(s@) is Some,
            r matches Ok(w) ==> Some(w@) == spec_parse_components(s@),
            r matches Err(e) ==> crate::error::is_parse_error(e),
        decreases s@.len(),
    {
        proof {
            lemma_find_char_props(s@, ',', 0);
        }
        let n = s.unicode_len();
        match find_char_from(s, ',', 0) {
            Option::None => {
                match WValComponent::from_str(s) {
                    Result::Ok(c) => {
                        let mut v: Vec<WValComponent> = Vec::new();
                        v.push(c);
                        let w = WValInner { components: v };
                        proof {
                            assert(w@ =~= seq![c@]);
                        }
                        Ok(w)
                    },
                    Result::Err(e) => Err(e),
                }
            },
            Option::Some(i) => {
                let head = match WValComponent::from_str(s.substring_char(0, i)) {
                    Result::Ok(c) => c,
                    Result::Err(e) => {
                        return Err(e);
                    },
                };
                let tail = match WValInner::from_str(s.substring_char(i + 1, n)) {
                    Result::Ok(w) => w,
                    Result::Err(e) => {
                        return Err(e);
                    },
                };
                let mut v = tail.components;
                v.insert(0, head);
                let w = WValInner { components: v };
                proof {
                    assert(w@ =~= seq![head@] + spec_parse_components(
                        s@.subrange(i + 1, s@.len() as int),
                    ).unwrap());
                }
                Ok(w)
            },
        }
    }
}

impl FutureRef {
    /// Parses `=W=` future-reference text.
    pub fn from_str(s: &str) -> (r: Result<FutureRef, AsmError>)
        ensures
            r is Ok <==> spec_parse_future_ref(s@) is Some,
            r matches Ok(f) ==> Some(f@) == spec_parse_future_ref(s@),
            r matches Err(e) ==> crate::error::is_parse_error(e),
    {
        let n = s.unicode_len();
        if !(n > 2 && s.get_char(0) == '=' && s.get_char(n - 1) == '=') {
            return Err(AsmError::InvalidFutureRef);
        }
        match WValInner::from_str(s.substring_char(1, n - 1)) {
            Result::Ok(w) => Ok(FutureRef { wval: w }),
            Result::Err(e) => Err(e),
        }
    }
}

impl WVal {
    /// Parses W-value text.
    pub fn from_str(s: &str) -> (r: Result<WVal, AsmError>)
        ensures
            r is Ok <==> spec_parse_wval(s@) is Some,
            r matches Ok(w) ==> Some(w@) == spec_parse_wval(s@),
            r matches Err(e) ==> crate::error::is_parse_error(e),
            s@.len() > 10 ==> r == Err::<WVal, AsmError>(AsmError::WValTooLong),
    {
        let n = s.unicode_len();
        if n > 10 {
            return Err(AsmError::WValTooLong);
        }
        if n >= 1 && s.get_char(0) == '=' && s.get_char(n - 1) == '=' {
            return match FutureRef::from_str(s) {
                Result::Ok(f) => Ok(WVal::FutureRef(f)),
                Result::Err(e) => Err(e),
            };
        }
        match WValInner::from_str(s) {
            Result::Ok(w) => Ok(WVal::WValInner(w)),
            Result::Err(e) => Err(e),
        }
    }
}

} // verus!
