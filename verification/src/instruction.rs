use vstd::prelude::*;

use crate::error::AsmError;
use crate::expression::{spec_parse_expr, Expression, SpecExpr};
use crate::field::{spec_parse_field, Field};
use crate::number::Number;
use crate::text::{find_char_from, lemma_find_char_props, spec_find_char, str_eq};
use crate::wval::{spec_parse_wval, zero_wval, zero_wval_view, WVal, WValView};

verus! {

/// The sign of a machine word or of an address operand.
#[derive(Debug, PartialEq, Eq, Structural, Clone, Copy)]
pub enum Sign {
    Positive,
    Negative,
}

/// The mathematical form of an address operand.
pub struct AddressView {
    pub sign: Sign,
    pub address: WValView,
    pub index: SpecExpr,
    pub field: SpecExpr,
}

/// The operand shape shared by every instruction:
/// `[sign]base[,index][(field)]`.
#[derive(Debug, PartialEq)]
pub struct Address {
    pub sign: Sign,
    pub address: WVal,
    pub index: Expression,
    pub field: Field,
}

impl View for Address {
    type V = AddressView;

    open spec fn view(&self) -> AddressView {
        AddressView {
            sign: self.sign,
            address: self.address@,
            index: self.index@,
            field: self.field@,
        }
    }
}

/// The address grammar, relative to a default field text `dft`: strip a
/// sign; take everything from the first `(` as the field (or parse `dft`);
/// split off an index expression at the first comma before the field; the
/// remainder is the base W-value, `0` when empty.
pub open spec fn spec_parse_address(s: Seq<char>, dft: Seq<char>) -> Option<AddressView> {
    let sign = if s.len() >= 1 && s[0] == '-' {
        Sign::Negative
    } else {
        Sign::Positive
    };
    let rest = if s.len() >= 1 && (s[0] == '-' || s[0] == '+') {
        s.subrange(1, s.len() as int)
    } else {
        s
    };
    let field_pos = match spec_find_char(rest, '(', 0) {
        Option::Some(i) => i,
        Option::None => rest.len() as int,
    };
    let fe = match spec_find_char(rest, '(', 0) {
        Option::Some(i) => spec_parse_field(rest.subrange(i, rest.len() as int)),
        Option::None => spec_parse_expr(dft),
    };
    let head = rest.subrange(0, field_pos);
    let index_pos = match spec_find_char(head, ',', 0) {
        Option::Some(ci) => ci,
        Option::None => field_pos,
    };
    let ie = match spec_find_char(head, ',', 0) {
        Option::Some(ci) => spec_parse_expr(rest.subrange(ci + 1, field_pos)),
        Option::None => Some(SpecExpr::Num(0)),
    };
    let ae = if index_pos == 0 {
        Some(zero_wval_view())
    } else {
        spec_parse_wval(rest.subrange(0, index_pos))
    };
    if fe is Some && ie is Some && ae is Some {
        Some(
            AddressView {
                sign,
                address: ae.unwrap(),
                index: ie.unwrap(),
                field: fe.unwrap(),
            },
        )
    } else {
        None
    }
}

impl Address {
    /// Parses an address operand, with `default_field` naming the field
    /// to use when the text carries none.
    pub fn new_with_default_field(s: &str, default_field: &str) -> (r: Result<Address, AsmError>)
        ensures
            r is Ok <==> spec_parse_address(s@, default_field@) is Some,
            r matches Ok(a) ==> Some(a@) == spec_parse_address(s@, default_field@),
            r matches Err(e) ==> crate::error::is_parse_error(e),
    {
        let n = s.unicode_len();
        let mut start: usize = 0;
        let mut sign = Sign::Positive;
        if n >= 1 && s.get_char(0) == '-' {
            start = 1;
            sign = Sign::Negative;
        } else if n >= 1 && s.get_char(0) == '+' {
            start = 1;
        }
        let rest = s.substring_char(start, n);
        let m = n - start;
        proof {
            assert(rest@ =~= if s@.len() >= 1 && (s@[0] == '-' || s@[0] == '+') {
                s@.subrange(1, s@.len() as int)
            } else {
                s@
            });
            lemma_find_char_props(rest@, '(', 0);
        }
        let (field, field_pos) = match Field::find_field_or_default(rest, default_field) {
            Result::Ok(t) => t,
            Result::Err(e) => {
                return Err(e);
            },
        };
        let head = rest.substring_char(0, field_pos);
        proof {
            lemma_find_char_props(head@, ',', 0);
        }
        let (index, index_pos) = match find_char_from(head, ',', 0) {
            Option::Some(ci) => {
                match Expression::from_str(rest.substring_char(ci + 1, field_pos)) {
                    Result::Ok(e) => (e, ci),
                    Result::Err(e) => {
                        return Err(e);
                    },
                }
            },
            Option::None => (Expression::Number(Number(0)), field_pos),
        };
        let address = if index_pos == 0 {
            zero_wval()
        } else {
            match WVal::from_str(rest.substring_char(0, index_pos)) {
                Result::Ok(w) => w,
                Result::Err(e) => {
                    return Err(e);
                },
            }
        };
        Ok(Address { sign, address, index, field })
    }
}

/// A machine instruction: the operation code from the mnemonic table and
/// its parsed address operand.
#[derive(Debug, PartialEq)]
pub struct MixInstruction {
    pub operation_code: u8,
    pub address: Address,
}

pub open spec fn spec_opcode_arith(s: Seq<char>) -> Option<(u8, Seq<char>)> {
    if s == "NOP"@ {
        Some((0u8, "0:5"@))
    } else if s == "ADD"@ {
        Some((1u8, "0:5"@))
    } else if s == "FADD"@ {
        Some((1u8, "6"@))
    } else if s == "SUB"@ {
        Some((2u8, "0:5"@))
    } else if s == "FSUB"@ {
        Some((2u8, "6"@))
    } else if s == "MUL"@ {
        Some((3u8, "0:5"@))
    } else if s == "FMUL"@ {
        Some((3u8, "6"@))
    } else if s == "DIV"@ {
        Some((4u8, "0:5"@))
    } else if s == "FDIV"@ {
        Some((4u8, "6"@))
    } else if s == "NUM"@ {
        Some((5u8, "0"@))
    } else if s == "CHAR"@ {
        Some((5u8, "1"@))
    } else if s == "HLT"@ {
        Some((5u8, "2"@))
    } else if s == "SLA"@ {
        Some((6u8, "0"@))
    } else if s == "SRA"@ {
        Some((6u8, "1"@))
    } else if s == "SLAX"@ {
        Some((6u8, "2"@))
    } else if s == "SRAX"@ {
        Some((6u8, "3"@))
    } else if s == "SLC"@ {
        Some((6u8, "4"@))
    } else if s == "SRC"@ {
        Some((6u8, "5"@))
    } else if s == "MOVE"@ {
        Some((7u8, "1"@))
    } else {
        None
    }
}

pub open spec fn spec_opcode_ldst(s: Seq<char>) -> Option<(u8, Seq<char>)> {
    if s == "LDA"@ {
        Some((8u8, "0:5"@))
    } else if s == "LD1"@ {
        Some((9u8, "0:5"@))
    } else if s == "LD2"@ {
        Some((10u8, "0:5"@))
    } else if s == "LD3"@ {
        Some((11u8, "0:5"@))
    } else if s == "LD4"@ {
        Some((12u8, "0:5"@))
    } else if s == "LD5"@ {
        Some((13u8, "0:5"@))
    } else if s == "LD6"@ {
        Some((14u8, "0:5"@))
    } else if s == "LDX"@ {
        Some((15u8, "0:5"@))
    } else if s == "LDAN"@ {
        Some((16u8, "0:5"@))
    } else if s == "LD1N"@ {
        Some((17u8, "0:5"@))
    } else if s == "LD2N"@ {
        Some((18u8, "0:5"@))
    } else if s == "LD3N"@ {
        Some((19u8, "0:5"@))
    } else if s == "LD4N"@ {
        Some((20u8, "0:5"@))
    } else if s == "LD5N"@ {
        Some((21u8, "0:5"@))
    } else if s == "LD6N"@ {
        Some((22u8, "0:5"@))
    } else if s == "LDXN"@ {
        Some((23u8, "0:5"@))
    } else if s == "STA"@ {
        Some((24u8, "0:5"@))
    } else if s == "ST1"@ {
        Some((25u8, "0:5"@))
    } else if s == "ST2"@ {
        Some((26u8, "0:5"@))
    } else if s == "ST3"@ {
        Some((27u8, "0:5"@))
    } else if s == "ST4"@ {
        Some((28u8, "0:5"@))
    } else if s == "ST5"@ {
        Some((29u8, "0:5"@))
    } else if s == "ST6"@ {
        Some((30u8, "0:5"@))
    } else if s == "STX"@ {
        Some((31u8, "0:5"@))
    } else if s == "STJ"@ {
        Some((32u8, "0:2"@))
    } else if s == "STZ"@ {
        Some((33u8, "0:5"@))
    } else {
        None
    }
}

pub open spec fn spec_opcode_jump(s: Seq<char>) -> Option<(u8, Seq<char>)> {
    if s == "JBUS"@ {
        Some((34u8, "0"@))
    } else if s == "IOC"@ {
        Some((35u8, "0"@))
    } else if s == "IN"@ {
        Some((36u8, "0"@))
    } else if s == "OUT"@ {
        Some((37u8, "0"@))
    } else if s == "JRED"@ {
        Some((38u8, "0"@))
    } else if s == "JMP"@ {
        Some((39u8, "0"@))
    } else if s == "JSJ"@ {
        Some((39u8, "1"@))
    } else if s == "JOV"@ {
        Some((39u8, "2"@))
    } else if s == "JNOV"@ {
        Some((39u8, "3"@))
    } else if s == "JL"@ {
        Some((39u8, "4"@))
    } else if s == "JE"@ {
        Some((39u8, "5"@))
    } else if s == "JG"@ {
        Some((39u8, "6"@))
    } else if s == "JGE"@ {
        Some((39u8, "7"@))
    } else if s == "JNE"@ {
        Some((39u8, "8"@))
    } else if s == "JLE"@ {
        Some((39u8, "9"@))
    } else if s == "JAN"@ {
        Some((40u8, "0"@))
    } else if s == "JAZ"@ {
        Some((40u8, "1"@))
    } else if s == "JAP"@ {
        Some((40u8, "2"@))
    } else if s == "JANN"@ {
        Some((40u8, "3"@))
    } else if s == "JANZ"@ {
        Some((40u8, "4"@))
    } else if s == "JANP"@ {
        Some((40u8, "5"@))
    } else if s == "J1N"@ {
        Some((41u8, "0"@))
    } else if s == "J1Z"@ {
        Some((41u8, "1"@))
    } else if s == "J1P"@ {
        Some((41u8, "2"@))
    } else if s == "J1NN"@ {
        Some((41u8, "3"@))
    } else if s == "J1NZ"@ {
        Some((41u8, "4"@))
    } else if s == "J1NP"@ {
        Some((41u8, "5"@))
    } else if s == "J2N"@ {
        Some((42u8, "0"@))
    } else if s == "J2Z"@ {
        Some((42u8, "1"@))
    } else if s == "J2P"@ {
        Some((42u8, "2"@))
    } else if s == "J2NN"@ {
        Some((42u8, "3"@))
    } else if s == "J2NZ"@ {
        Some((42u8, "4"@))
    } else if s == "J2NP"@ {
        Some((42u8, "5"@))
    } else if s == "J3N"@ {
        Some((43u8, "0"@))
    } else if s == "J3Z"@ {
        Some((43u8, "1"@))
    } else if s == "J3P"@ {
        Some((43u8, "2"@))
    } else if s == "J3NN"@ {
        Some((43u8, "3"@))
    } else if s == "J3NZ"@ {
        Some((43u8, "4"@))
    } else if s == "J3NP"@ {
        Some((43u8, "5"@))
    } else if s == "J4N"@ {
        Some((44u8, "0"@))
    } else if s == "J4Z"@ {
        Some((44u8, "1"@))
    } else if s == "J4P"@ {
        Some((44u8, "2"@))
    } else if s == "J4NN"@ {
        Some((44u8, "3"@))
    } else if s == "J4NZ"@ {
        Some((44u8, "4"@))
    } else if s == "J4NP"@ {
        Some((44u8, "5"@))
    } else if s == "J5N"@ {
        Some((45u8, "0"@))
    } else if s == "J5Z"@ {
        Some((45u8, "1"@))
    } else if s == "J5P"@ {
        Some((45u8, "2"@))
    } else if s == "J5NN"@ {
        Some((45u8, "3"@))
    } else if s == "J5NZ"@ {
        Some((45u8, "4"@))
    } else if s == "J5NP"@ {
        Some((45u8, "5"@))
    } else if s == "J6N"@ {
        Some((46u8, "0"@))
    } else if s == "J6Z"@ {
        Some((46u8, "1"@))
    } else if s == "J6P"@ {
        Some((46u8, "2"@))
    } else if s == "J6NN"@ {
        Some((46u8, "3"@))
    } else if s == "J6NZ"@ {
        Some((46u8, "4"@))
    } else if s == "J6NP"@ {
        Some((46u8, "5"@))
    } else if s == "JXN"@ {
        Some((47u8, "0"@))
    } else if s == "JXZ"@ {
        Some((47u8, "1"@))
    } else if s == "JXP"@ {
        Some((47u8, "2"@))
    } else if s == "JXNN"@ {
        Some((47u8, "3"@))
    } else if s == "JXNZ"@ {
        Some((47u8, "4"@))
    } else if s == "JXNP"@ {
        Some((47u8, "5"@))
    } else {
        None
    }
}

pub open spec fn spec_opcode_reg(s: Seq<char>) -> Option<(u8, Seq<char>)> {
    if s == "INCA"@ {
        Some((48u8, "0"@))
    } else if s == "DECA"@ {
        Some((48u8, "1"@))
    } else if s == "ENTA"@ {
        Some((48u8, "2"@))
    } else if s == "ENNA"@ {
        Some((48u8, "3"@))
    } else if s == "INC1"@ {
        Some((49u8, "0"@))
    } else if s == "DEC1"@ {
        Some((49u8, "1"@))
    } else if s == "ENT1"@ {
        Some((49u8, "2"@))
    } else if s == "ENN1"@ {
        Some((49u8, "3"@))
    } else if s == "INC2"@ {
        Some((50u8, "0"@))
    } else if s == "DEC2"@ {
        Some((50u8, "1"@))
    } else if s == "ENT2"@ {
        Some((50u8, "2"@))
    } else if s == "ENN2"@ {
        Some((50u8, "3"@))
    } else if s == "INC3"@ {
        Some((51u8, "0"@))
    } else if s == "DEC3"@ {
        Some((51u8, "1"@))
    } else if s == "ENT3"@ {
        Some((51u8, "2"@))
    } else if s == "ENN3"@ {
        Some((51u8, "3"@))
    } else if s == "INC4"@ {
        Some((52u8, "0"@))
    } else if s == "DEC4"@ {
        Some((52u8, "1"@))
    } else if s == "ENT4"@ {
        Some((52u8, "2"@))
    } else if s == "ENN4"@ {
        Some((52u8, "3"@))
    } else if s == "INC5"@ {
        Some((53u8, "0"@))
    } else if s == "DEC5"@ {
        Some((53u8, "1"@))
    } else if s == "ENT5"@ {
        Some((53u8, "2"@))
    } else if s == "ENN5"@ {
        Some((53u8, "3"@))
    } else if s == "INC6"@ {
        Some((54u8, "0"@))
    } else if s == "DEC6"@ {
        Some((54u8, "1"@))
    } else if s == "ENT6"@ {
        Some((54u8, "2"@))
    } else if s == "ENN6"@ {
        Some((54u8, "3"@))
    } else if s == "INCX"@ {
        Some((55u8, "0"@))
    } else if s == "DECX"@ {
        Some((55u8, "1"@))
    } else if s == "ENTX"@ {
        Some((55u8, "2"@))
    } else if s == "ENNX"@ {
        Some((55u8, "3"@))
    } else if s == "CMPA"@ {
        Some((56u8, "0:5"@))
    } else if s == "FCMP"@ {
        Some((56u8, "6"@))
    } else if s == "CMP1"@ {
        Some((57u8, "0:5"@))
    } else if s == "CMP2"@ {
        Some((58u8, "0:5"@))
    } else if s == "CMP3"@ {
        Some((59u8, "0:5"@))
    } else if s == "CMP4"@ {
        Some((60u8, "0:5"@))
    } else if s == "CMP5"@ {
        Some((61u8, "0:5"@))
    } else if s == "CMP6"@ {
        Some((62u8, "0:5"@))
    } else if s == "CMPX"@ {
        Some((63u8, "0:5"@))
    } else {
        None
    }
}

/// The full mnemonic table, grouped for the prover's sake: arithmetic and
/// shifts, loads and stores, jumps, and register/compare operations.
pub open spec fn spec_opcode_info(s: Seq<char>) -> Option<(u8, Seq<char>)> {
    if spec_opcode_arith(s) is Some {
        spec_opcode_arith(s)
    } else if spec_opcode_ldst(s) is Some {
        spec_opcode_ldst(s)
    } else if spec_opcode_jump(s) is Some {
        spec_opcode_jump(s)
    } else {
        spec_opcode_reg(s)
    }
}

/// Every operation code of the table is a valid byte.
pub proof fn lemma_opcode_info_bound(s: Seq<char>)
    ensures
        spec_opcode_info(s) matches Some(st) ==> st.0 < 64,
{
}

/// Looks a mnemonic up in the instruction table.
pub fn opcode_lookup(opcode: &str) -> (r: Option<(u8, &'static str)>)
    ensures
        r is Some <==> spec_opcode_info(opcode@) is Some,
        r matches Some(t) ==> (spec_opcode_info(opcode@) matches Some(st) && t.0 == st.0
            && t.1@ == st.1),
{
    let info = opcode_lookup_arith(opcode);
    if info.is_some() {
        return info;
    }
    let info = opcode_lookup_ldst(opcode);
    if info.is_some() {
        return info;
    }
    let info = opcode_lookup_jump(opcode);
    if info.is_some() {
        return info;
    }
    opcode_lookup_reg(opcode)
}
fn opcode_lookup_arith(opcode: &str) -> (r: Option<(u8, &'static str)>)
    ensures
        r is Some <==> spec_opcode_arith(opcode@) is Some,
        r matches Some(t) ==> (spec_opcode_arith(opcode@) matches Some(st) && t.0 == st.0
            && t.1@ == st.1),
{
    if str_eq(opcode, "NOP") {
        return Some((0, "0:5"));
    }
    if str_eq(opcode, "ADD") {
        return Some((1, "0:5"));
    }
    if str_eq(opcode, "FADD") {
        return Some((1, "6"));
    }
    if str_eq(opcode, "SUB") {
        return Some((2, "0:5"));
    }
    if str_eq(opcode, "FSUB") {
        return Some((2, "6"));
    }
    if str_eq(opcode, "MUL") {
        return Some((3, "0:5"));
    }
    if str_eq(opcode, "FMUL") {
        return Some((3, "6"));
    }
    if str_eq(opcode, "DIV") {
        return Some((4, "0:5"));
    }
    if str_eq(opcode, "FDIV") {
        return Some((4, "6"));
    }
    if str_eq(opcode, "NUM") {
        return Some((5, "0"));
    }
    if str_eq(opcode, "CHAR") {
        return Some((5, "1"));
    }
    if str_eq(opcode, "HLT") {
        return Some((5, "2"));
    }
    if str_eq(opcode, "SLA") {
        return Some((6, "0"));
    }
    if str_eq(opcode, "SRA") {
        return Some((6, "1"));
    }
    if str_eq(opcode, "SLAX") {
        return Some((6, "2"));
    }
    if str_eq(opcode, "SRAX") {
        return Some((6, "3"));
    }
    if str_eq(opcode, "SLC") {
        return Some((6, "4"));
    }
    if str_eq(opcode, "SRC") {
        return Some((6, "5"));
    }
    if str_eq(opcode, "MOVE") {
        return Some((7, "1"));
    }
    None
}

fn opcode_lookup_ldst(opcode: &str) -> (r: Option<(u8, &'static str)>)
    ensures
        r is Some <==> spec_opcode_ldst(opcode@) is Some,
        r matches Some(t) ==> (spec_opcode_ldst(opcode@) matches Some(st) && t.0 == st.0
            && t.1@ == st.1),
{
    if str_eq(opcode, "LDA") {
        return Some((8, "0:5"));
    }
    if str_eq(opcode, "LD1") {
        return Some((9, "0:5"));
    }
    if str_eq(opcode, "LD2") {
        return Some((10, "0:5"));
    }
    if str_eq(opcode, "LD3") {
        return Some((11, "0:5"));
    }
    if str_eq(opcode, "LD4") {
        return Some((12, "0:5"));
    }
    if str_eq(opcode, "LD5") {
        return Some((13, "0:5"));
    }
    if str_eq(opcode, "LD6") {
        return Some((14, "0:5"));
    }
    if str_eq(opcode, "LDX") {
        return Some((15, "0:5"));
    }
    if str_eq(opcode, "LDAN") {
        return Some((16, "0:5"));
    }
    if str_eq(opcode, "LD1N") {
        return Some((17, "0:5"));
    }
    if str_eq(opcode, "LD2N") {
        return Some((18, "0:5"));
    }
    if str_eq(opcode, "LD3N") {
        return Some((19, "0:5"));
    }
    if str_eq(opcode, "LD4N") {
        return Some((20, "0:5"));
    }
    if str_eq(opcode, "LD5N") {
        return Some((21, "0:5"));
    }
    if str_eq(opcode, "LD6N") {
        return Some((22, "0:5"));
    }
    if str_eq(opcode, "LDXN") {
        return Some((23, "0:5"));
    }
    if str_eq(opcode, "STA") {
        return Some((24, "0:5"));
    }
    if str_eq(opcode, "ST1") {
        return Some((25, "0:5"));
    }
    if str_eq(opcode, "ST2") {
        return Some((26, "0:5"));
    }
    if str_eq(opcode, "ST3") {
        return Some((27, "0:5"));
    }
    if str_eq(opcode, "ST4") {
        return Some((28, "0:5"));
    }
    if str_eq(opcode, "ST5") {
        return Some((29, "0:5"));
    }
    if str_eq(opcode, "ST6") {
        return Some((30, "0:5"));
    }
    if str_eq(opcode, "STX") {
        return Some((31, "0:5"));
    }
    if str_eq(opcode, "STJ") {
        return Some((32, "0:2"));
    }
    if str_eq(opcode, "STZ") {
        return Some((33, "0:5"));
    }
    None
}

fn opcode_lookup_jump(opcode: &str) -> (r: Option<(u8, &'static str)>)
    ensures
        r is Some <==> spec_opcode_jump(opcode@) is Some,
        r matches Some(t) ==> (spec_opcode_jump(opcode@) matches Some(st) && t.0 == st.0
            && t.1@ == st.1),
{
    if str_eq(opcode, "JBUS") {
        return Some((34, "0"));
    }
    if str_eq(opcode, "IOC") {
        return Some((35, "0"));
    }
    if str_eq(opcode, "IN") {
        return Some((36, "0"));
    }
    if str_eq(opcode, "OUT") {
        return Some((37, "0"));
    }
    if str_eq(opcode, "JRED") {
        return Some((38, "0"));
    }
    if str_eq(opcode, "JMP") {
        return Some((39, "0"));
    }
    if str_eq(opcode, "JSJ") {
        return Some((39, "1"));
    }
    if str_eq(opcode, "JOV") {
        return Some((39, "2"));
    }
    if str_eq(opcode, "JNOV") {
        return Some((39, "3"));
    }
    if str_eq(opcode, "JL") {
        return Some((39, "4"));
    }
    if str_eq(opcode, "JE") {
        return Some((39, "5"));
    }
    if str_eq(opcode, "JG") {
        return Some((39, "6"));
    }
    if str_eq(opcode, "JGE") {
        return Some((39, "7"));
    }
    if str_eq(opcode, "JNE") {
        return Some((39, "8"));
    }
    if str_eq(opcode, "JLE") {
        return Some((39, "9"));
    }
    if str_eq(opcode, "JAN") {
        return Some((40, "0"));
    }
    if str_eq(opcode, "JAZ") {
        return Some((40, "1"));
    }
    if str_eq(opcode, "JAP") {
        return Some((40, "2"));
    }
    if str_eq(opcode, "JANN") {
        return Some((40, "3"));
    }
    if str_eq(opcode, "JANZ") {
        return Some((40, "4"));
    }
    if str_eq(opcode, "JANP") {
        return Some((40, "5"));
    }
    if str_eq(opcode, "J1N") {
        return Some((41, "0"));
    }
    if str_eq(opcode, "J1Z") {
        return Some((41, "1"));
    }
    if str_eq(opcode, "J1P") {
        return Some((41, "2"));
    }
    if str_eq(opcode, "J1NN") {
        return Some((41, "3"));
    }
    if str_eq(opcode, "J1NZ") {
        return Some((41, "4"));
    }
    if str_eq(opcode, "J1NP") {
        return Some((41, "5"));
    }
    if str_eq(opcode, "J2N") {
        return Some((42, "0"));
    }
    if str_eq(opcode, "J2Z") {
        return Some((42, "1"));
    }
    if str_eq(opcode, "J2P") {
        return Some((42, "2"));
    }
    if str_eq(opcode, "J2NN") {
        return Some((42, "3"));
    }
    if str_eq(opcode, "J2NZ") {
        return Some((42, "4"));
    }
    if str_eq(opcode, "J2NP") {
        return Some((42, "5"));
    }
    if str_eq(opcode, "J3N") {
        return Some((43, "0"));
    }
    if str_eq(opcode, "J3Z") {
        return Some((43, "1"));
    }
    if str_eq(opcode, "J3P") {
        return Some((43, "2"));
    }
    if str_eq(opcode, "J3NN") {
        return Some((43, "3"));
    }
    if str_eq(opcode, "J3NZ") {
        return Some((43, "4"));
    }
    if str_eq(opcode, "J3NP") {
        return Some((43, "5"));
    }
    if str_eq(opcode, "J4N") {
        return Some((44, "0"));
    }
    if str_eq(opcode, "J4Z") {
        return Some((44, "1"));
    }
    if str_eq(opcode, "J4P") {
        return Some((44, "2"));
    }
    if str_eq(opcode, "J4NN") {
        return Some((44, "3"));
    }
    if str_eq(opcode, "J4NZ") {
        return Some((44, "4"));
    }
    if str_eq(opcode, "J4NP") {
        return Some((44, "5"));
    }
    if str_eq(opcode, "J5N") {
        return Some((45, "0"));
    }
    if str_eq(opcode, "J5Z") {
        return Some((45, "1"));
    }
    if str_eq(opcode, "J5P") {
        return Some((45, "2"));
    }
    if str_eq(opcode, "J5NN") {
        return Some((45, "3"));
    }
    if str_eq(opcode, "J5NZ") {
        return Some((45, "4"));
    }
    if str_eq(opcode, "J5NP") {
        return Some((45, "5"));
    }
    if str_eq(opcode, "J6N") {
        return Some((46, "0"));
    }
    if str_eq(opcode, "J6Z") {
        return Some((46, "1"));
    }
    if str_eq(opcode, "J6P") {
        return Some((46, "2"));
    }
    if str_eq(opcode, "J6NN") {
        return Some((46, "3"));
    }
    if str_eq(opcode, "J6NZ") {
        return Some((46, "4"));
    }
    if str_eq(opcode, "J6NP") {
        return Some((46, "5"));
    }
    if str_eq(opcode, "JXN") {
        return Some((47, "0"));
    }
    if str_eq(opcode, "JXZ") {
        return Some((47, "1"));
    }
    if str_eq(opcode, "JXP") {
        return Some((47, "2"));
    }
    if str_eq(opcode, "JXNN") {
        return Some((47, "3"));
    }
    if str_eq(opcode, "JXNZ") {
        return Some((47, "4"));
    }
    if str_eq(opcode, "JXNP") {
        return Some((47, "5"));
    }
    None
}

fn opcode_lookup_reg(opcode: &str) -> (r: Option<(u8, &'static str)>)
    ensures
        r is Some <==> spec_opcode_reg(opcode@) is Some,
        r matches Some(t) ==> (spec_opcode_reg(opcode@) matches Some(st) && t.0 == st.0
            && t.1@ == st.1),
{
    if str_eq(opcode, "INCA") {
        return Some((48, "0"));
    }
    if str_eq(opcode, "DECA") {
        return Some((48, "1"));
    }
    if str_eq(opcode, "ENTA") {
        return Some((48, "2"));
    }
    if str_eq(opcode, "ENNA") {
        return Some((48, "3"));
    }
    if str_eq(opcode, "INC1") {
        return Some((49, "0"));
    }
    if str_eq(opcode, "DEC1") {
        return Some((49, "1"));
    }
    if str_eq(opcode, "ENT1") {
        return Some((49, "2"));
    }
    if str_eq(opcode, "ENN1") {
        return Some((49, "3"));
    }
    if str_eq(opcode, "INC2") {
        return Some((50, "0"));
    }
    if str_eq(opcode, "DEC2") {
        return Some((50, "1"));
    }
    if str_eq(opcode, "ENT2") {
        return Some((50, "2"));
    }
    if str_eq(opcode, "ENN2") {
        return Some((50, "3"));
    }
    if str_eq(opcode, "INC3") {
        return Some((51, "0"));
    }
    if str_eq(opcode, "DEC3") {
        return Some((51, "1"));
    }
    if str_eq(opcode, "ENT3") {
        return Some((51, "2"));
    }
    if str_eq(opcode, "ENN3") {
        return Some((51, "3"));
    }
    if str_eq(opcode, "INC4") {
        return Some((52, "0"));
    }
    if str_eq(opcode, "DEC4") {
        return Some((52, "1"));
    }
    if str_eq(opcode, "ENT4") {
        return Some((52, "2"));
    }
    if str_eq(opcode, "ENN4") {
        return Some((52, "3"));
    }
    if str_eq(opcode, "INC5") {
        return Some((53, "0"));
    }
    if str_eq(opcode, "DEC5") {
        return Some((53, "1"));
    }
    if str_eq(opcode, "ENT5") {
        return Some((53, "2"));
    }
    if str_eq(opcode, "ENN5") {
        return Some((53, "3"));
    }
    if str_eq(opcode, "INC6") {
        return Some((54, "0"));
    }
    if str_eq(opcode, "DEC6") {
        return Some((54, "1"));
    }
    if str_eq(opcode, "ENT6") {
        return Some((54, "2"));
    }
    if str_eq(opcode, "ENN6") {
        return Some((54, "3"));
    }
    if str_eq(opcode, "INCX") {
        return Some((55, "0"));
    }
    if str_eq(opcode, "DECX") {
        return Some((55, "1"));
    }
    if str_eq(opcode, "ENTX") {
        return Some((55, "2"));
    }
    if str_eq(opcode, "ENNX") {
        return Some((55, "3"));
    }
    if str_eq(opcode, "CMPA") {
        return Some((56, "0:5"));
    }
    if str_eq(opcode, "FCMP") {
        return Some((56, "6"));
    }
    if str_eq(opcode, "CMP1") {
        return Some((57, "0:5"));
    }
    if str_eq(opcode, "CMP2") {
        return Some((58, "0:5"));
    }
    if str_eq(opcode, "CMP3") {
        return Some((59, "0:5"));
    }
    if str_eq(opcode, "CMP4") {
        return Some((60, "0:5"));
    }
    if str_eq(opcode, "CMP5") {
        return Some((61, "0:5"));
    }
    if str_eq(opcode, "CMP6") {
        return Some((62, "0:5"));
    }
    if str_eq(opcode, "CMPX") {
        return Some((63, "0:5"));
    }
    None
}


impl MixInstruction {
    /// Parses a mnemonic and its operand text.  Fails with
    /// `UnrecognizedMnemonic` when the mnemonic is not in the table, so the
    /// caller can try the pseudo-operations; a recognized mnemonic with a
    /// bad operand fails with that operand's error.
    pub fn try_parse(opcode: &str, rest: &str) -> (r: Result<MixInstruction, AsmError>)
        ensures
            r matches Err(e) ==> crate::error::is_parse_error(e),
            spec_opcode_info(opcode@) is None ==> r == Err::<MixInstruction, AsmError>(
                AsmError::UnrecognizedMnemonic,
            ),
            spec_opcode_info(opcode@) matches Some(st) ==> {
                &&& (r is Ok <==> spec_parse_address(rest@, st.1) is Some)
                &&& (r matches Ok(inst) ==> inst.operation_code == st.0 && Some(inst.address@)
                    == spec_parse_address(rest@, st.1))
            },
    {
        let (operation_code, default_field) = match opcode_lookup(opcode) {
            Option::Some(t) => t,
            Option::None => {
                return Err(AsmError::UnrecognizedMnemonic);
            },
        };
        match Address::new_with_default_field(rest, default_field) {
            Result::Ok(address) => Ok(MixInstruction { operation_code, address }),
            Result::Err(e) => Err(e),
        }
    }
}

} // verus!
