use vstd::prelude::*;

use crate::error::AsmError;
use crate::text::{spec_trim, trim_str};
use crate::wval::{spec_parse_wval, WVal};

verus! {

/// The EQU pseudo-operation: it defines the line's location symbol to
/// equal the operand's W-value instead of a memory address.
#[derive(Debug, PartialEq)]
pub struct Equ {
    pub wval: WVal,
}

/// Whether `s` starts with the letters `EQU`.
pub open spec fn starts_with_equ(s: Seq<char>) -> bool {
    s.len() >= 3 && s[0] == 'E' && s[1] == 'Q' && s[2] == 'U'
}

impl Equ {
    /// Attempts to parse an EQU line.  `Ok(None)` when the text does not
    /// start with `EQU`, so the caller can try other operations; an error
    /// when it does but the operand is missing or invalid.
    pub fn try_parse(input: &str) -> (r: Result<Option<Equ>, AsmError>)
        ensures
            !starts_with_equ(input@) ==> r == Ok::<Option<Equ>, AsmError>(None),
            starts_with_equ(input@) ==> {
                let operand = spec_trim(input@.subrange(3, input@.len() as int));
                &&& (operand.len() == 0 ==> r == Err::<Option<Equ>, AsmError>(
                    AsmError::MissingOperand,
                ))
                &&& (operand.len() > 0 ==> {
                    &&& (r is Ok <==> spec_parse_wval(operand) is Some)
                    &&& (r matches Ok(o) ==> (o matches Some(e) && Some(e.wval@)
                        == spec_parse_wval(operand)))
                })
            },
    {
        let n = input.unicode_len();
        if n < 3 || !(input.get_char(0) == 'E' && input.get_char(1) == 'Q' && input.get_char(2)
            == 'U') {
            return Ok(None);
        }
        let operand = trim_str(input.substring_char(3, n));
        if operand.unicode_len() == 0 {
            return Err(AsmError::MissingOperand);
        }
        match WVal::from_str(operand) {
            Result::Ok(w) => Ok(Some(Equ { wval: w })),
            Result::Err(e) => Err(e),
        }
    }
}

} // verus!
