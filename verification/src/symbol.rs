use vstd::prelude::*;

use crate::error::AsmError;
use crate::text::{is_letter, is_symbol_char};

verus! {

/// A validated identifier of the MIXAL language: at most 10 characters from
/// the alphabet A-Z0-9, with at least one letter.  A symbol stands for a raw
/// numeric value; the assembler replaces it during resolution.
#[derive(Debug, PartialEq)]
pub struct Symbol(pub String);

/// The validity rule for symbol text.
pub open spec fn is_valid_symbol(s: Seq<char>) -> bool {
    &&& 1 <= s.len() <= 10
    &&& (forall|i: int| 0 <= i < s.len() ==> is_symbol_char(#[trigger] s[i]))
    &&& (exists|i: int| 0 <= i < s.len() && is_letter(#[trigger] s[i]))
}

impl View for Symbol {
    type V = Seq<char>;

    open spec fn view(&self) -> Seq<char> {
        self.0@
    }
}

impl Symbol {
    /// Validates `s` and wraps it as a `Symbol`.
    pub fn new(s: &str) -> (r: Result<Symbol, AsmError>)
        ensures
            r is Ok <==> is_valid_symbol(s@),
            r matches Ok(sym) ==> sym@ == s@,
            r matches Err(e) ==> e == AsmError::InvalidSymbol,
    {
        let n = s.unicode_len();
        if n == 0 || n > 10 {
            return Err(AsmError::InvalidSymbol);
        }
        let mut i: usize = 0;
        let mut has_letter = false;
        while i < n
            invariant
                0 <= i <= n,
                n == s@.len(),
                1 <= n <= 10,
                forall|j: int| 0 <= j < i ==> is_symbol_char(#[trigger] s@[j]),
                has_letter == exists|j: int| 0 <= j < i && is_letter(#[trigger] s@[j]),
            decreases n - i,
        {
            let c = s.get_char(i);
            if !(('A' <= c && c <= 'Z') || ('0' <= c && c <= '9')) {
                return Err(AsmError::InvalidSymbol);
            }
            if 'A' <= c && c <= 'Z' {
                has_letter = true;
            }
            i += 1;
        }
        if !has_letter {
            return Err(AsmError::InvalidSymbol);
        }
        Ok(Symbol(s.to_owned()))
    }

    /// Whether `c` may appear in a symbol.
    pub fn is_valid_char(c: char) -> (r: bool)
        ensures
            r == is_symbol_char(c),
    {
        ('A' <= c && c <= 'Z') || ('0' <= c && c <= '9')
    }

    /// Parse entry point, mirroring `new`.
    pub fn from_str(s: &str) -> (r: Result<Symbol, AsmError>)
        ensures
            r is Ok <==> is_valid_symbol(s@),
            r matches Ok(sym) ==> sym@ == s@,
            r matches Err(e) ==> e == AsmError::InvalidSymbol,
    {
        Symbol::new(s)
    }
}

/// A source line reduced to its location label, if any.
#[derive(Debug)]
pub struct MixalStatement {
    pub loc: Option<Symbol>,
}

} // verus!
