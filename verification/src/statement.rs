use vstd::prelude::*;

use crate::alf::{all_mix_chars, spec_alf_data, Alf};
use crate::equ::Equ;
use crate::error::AsmError;
use crate::instruction::{spec_opcode_info, spec_parse_address, AddressView, MixInstruction};
use crate::symbol::{is_valid_symbol, Symbol};
use crate::text::{
    char_at_is_space, find_space_from, is_space_char, lemma_find_space_props, spec_find_space,
    spec_trim, spec_trim_start, str_eq, trim_start_str, trim_str,
};
use crate::wval::{spec_parse_wval, WVal, WValView};

verus! {

/// The ORIG pseudo-operation: sets the location counter to its operand.
#[derive(Debug, PartialEq)]
pub struct Orig {
    pub wval: WVal,
}

/// The CON pseudo-operation: emits one constant word.
#[derive(Debug, PartialEq)]
pub struct Con {
    pub wval: WVal,
}

/// The END pseudo-operation: marks the end of the program; its operand
/// names the entry address.
#[derive(Debug, PartialEq)]
pub struct End {
    pub wval: WVal,
}

/// The mathematical form of an operation.
pub enum OperationView {
    Instruction(u8, AddressView),
    Equ(WValView),
    Orig(WValView),
    Con(WValView),
    Alf(Seq<char>),
    End(WValView),
}

/// The operation of one source line: a machine instruction or one of the
/// pseudo-operations.
#[derive(Debug)]
pub enum Operation {
    Instruction(MixInstruction),
    Equ(Equ),
    Orig(Orig),
    Con(Con),
    Alf(Alf),
    End(End),
}

impl View for Operation {
    type V = OperationView;

    open spec fn view(&self) -> OperationView {
        match self {
            Operation::Instruction(i) => OperationView::Instruction(i.operation_code, i.address@),
            Operation::Equ(e) => OperationView::Equ(e.wval@),
            Operation::Orig(o) => OperationView::Orig(o.wval@),
            Operation::Con(c) => OperationView::Con(c.wval@),
            Operation::Alf(a) => OperationView::Alf(a.chars@),
            Operation::End(e) => OperationView::End(e.wval@),
        }
    }
}

/// The operation grammar: the text up to the first whitespace selects the
/// operation, the remainder is its operand.  The operand is trimmed for
/// every operation but ALF, whose leading blanks are significant.
pub open spec fn spec_parse_operation(s: Seq<char>) -> Option<OperationView> {
    let opcode = match spec_find_space(s, 0) {
        Option::Some(i) => s.subrange(0, i),
        Option::None => s,
    };
    let rest = match spec_find_space(s, 0) {
        Option::Some(i) => s.subrange(i + 1, s.len() as int),
        Option::None => Seq::<char>::empty(),
    };
    if opcode == "EQU"@ {
        match spec_parse_wval(spec_trim(rest)) {
            Option::Some(w) => Some(OperationView::Equ(w)),
            Option::None => None,
        }
    } else if opcode == "ORIG"@ {
        match spec_parse_wval(spec_trim(rest)) {
            Option::Some(w) => Some(OperationView::Orig(w)),
            Option::None => None,
        }
    } else if opcode == "CON"@ {
        match spec_parse_wval(spec_trim(rest)) {
            Option::Some(w) => Some(OperationView::Con(w)),
            Option::None => None,
        }
    } else if opcode == "ALF"@ {
        match spec_alf_data(rest) {
            Option::Some(d) => if d.len() == 5 && all_mix_chars(d) {
                Some(OperationView::Alf(d))
            } else {
                None
            },
            Option::None => None,
        }
    } else if opcode == "END"@ {
        match spec_parse_wval(spec_trim(rest)) {
            Option::Some(w) => Some(OperationView::End(w)),
            Option::None => None,
        }
    } else {
        match spec_opcode_info(opcode) {
            Option::None => None,
            Option::Some(st) => match spec_parse_address(spec_trim(rest), st.1) {
                Option::Some(av) => Some(OperationView::Instruction(st.0, av)),
                Option::None => None,
            },
        }
    }
}

impl Operation {
    /// Parses the operation field and its operand.
    pub fn from_str(s: &str) -> (r: Result<Operation, AsmError>)
        ensures
            r is Ok <==> spec_parse_operation(s@) is Some,
            r matches Ok(op) ==> Some(op@) == spec_parse_operation(s@),
            r matches Err(e) ==> crate::error::is_parse_error(e),
    {
        proof {
            lemma_find_space_props(s@, 0);
        }
        let n = s.unicode_len();
        let (opcode, rest) = match find_space_from(s, 0) {
            Option::Some(i) => (s.substring_char(0, i), s.substring_char(i + 1, n)),
            Option::None => (s, s.substring_char(n, n)),
        };
        proof {
            assert(s@.subrange(n as int, n as int) =~= Seq::<char>::empty());
        }
        if str_eq(opcode, "EQU") {
            return match WVal::from_str(trim_str(rest)) {
                Result::Ok(w) => Ok(Operation::Equ(Equ { wval: w })),
                Result::Err(e) => Err(e),
            };
        }
        if str_eq(opcode, "ORIG") {
            return match WVal::from_str(trim_str(rest)) {
                Result::Ok(w) => Ok(Operation::Orig(Orig { wval: w })),
                Result::Err(e) => Err(e),
            };
        }
        if str_eq(opcode, "CON") {
            return match WVal::from_str(trim_str(rest)) {
                Result::Ok(w) => Ok(Operation::Con(Con { wval: w })),
                Result::Err(e) => Err(e),
            };
        }
        if str_eq(opcode, "ALF") {
            return match Alf::from_char_data(rest) {
                Result::Ok(a) => Ok(Operation::Alf(a)),
                Result::Err(e) => Err(e),
            };
        }
        if str_eq(opcode, "END") {
            return match WVal::from_str(trim_str(rest)) {
                Result::Ok(w) => Ok(Operation::End(End { wval: w })),
                Result::Err(e) => Err(e),
            };
        }
        match MixInstruction::try_parse(opcode, trim_str(rest)) {
            Result::Ok(i) => Ok(Operation::Instruction(i)),
            Result::Err(e) => Err(e),
        }
    }
}

/// The mathematical form of a source line.
pub struct StatementView {
    pub loc: Option<Seq<char>>,
    pub op: OperationView,
}

/// One line of a MIXAL program: an optional location symbol — present
/// exactly when the line does not begin with whitespace — and an
/// operation.
#[derive(Debug)]
pub struct Statement {
    pub loc: Option<Symbol>,
    pub op: Operation,
}

impl View for Statement {
    type V = StatementView;

    open spec fn view(&self) -> StatementView {
        StatementView {
            loc: match self.loc {
                Option::Some(sym) => Some(sym@),
                Option::None => None,
            },
            op: self.op@,
        }
    }
}

/// The line grammar: a line beginning with whitespace has no location
/// symbol; otherwise the text before the first whitespace is the location
/// symbol, and a line with a location symbol but no whitespace at all has
/// no operation field and is malformed.
pub open spec fn spec_parse_statement(s: Seq<char>) -> Option<StatementView> {
    if s.len() >= 1 && is_space_char(s[0]) {
        match spec_parse_operation(spec_trim_start(s)) {
            Option::Some(op) => Some(StatementView { loc: None, op }),
            Option::None => None,
        }
    } else {
        match spec_find_space(s, 0) {
            Option::None => None,
            Option::Some(i) => {
                let locsym = s.subrange(0, i);
                let opstr = spec_trim_start(s.subrange(i + 1, s.len() as int));
                if is_valid_symbol(locsym) && spec_parse_operation(opstr) is Some {
                    Some(
                        StatementView {
                            loc: Some(locsym),
                            op: spec_parse_operation(opstr).unwrap(),
                        },
                    )
                } else {
                    None
                }
            },
        }
    }
}

/// Whatever ALF data and instruction codes a parsed operation carries are
/// in range: five valid characters, an operation code below 64.
pub proof fn lemma_parse_operation_ranges(s: Seq<char>)
    ensures
        spec_parse_operation(s) matches Some(op) ==> match op {
            OperationView::Alf(d) => d.len() == 5 && all_mix_chars(d),
            OperationView::Instruction(code, _) => code < 64,
            _ => true,
        },
{
    let opcode = match spec_find_space(s, 0) {
        Option::Some(i) => s.subrange(0, i),
        Option::None => s,
    };
    crate::instruction::lemma_opcode_info_bound(opcode);
}

/// The same ranges, lifted to whole statements.
pub proof fn lemma_parse_statement_ranges(s: Seq<char>)
    ensures
        spec_parse_statement(s) matches Some(st) ==> match st.op {
            OperationView::Alf(d) => d.len() == 5 && all_mix_chars(d),
            OperationView::Instruction(code, _) => code < 64,
            _ => true,
        },
{
    lemma_parse_operation_ranges(spec_trim_start(s));
    match spec_find_space(s, 0) {
        Option::Some(i) => {
            lemma_parse_operation_ranges(spec_trim_start(s.subrange(i + 1, s.len() as int)));
        },
        Option::None => {},
    }
}

impl Statement {
    /// Parses one source line.
    pub fn from_str(s: &str) -> (r: Result<Statement, AsmError>)
        ensures
            r is Ok <==> spec_parse_statement(s@) is Some,
            r matches Ok(st) ==> Some(st@) == spec_parse_statement(s@),
            r matches Err(e) ==> crate::error::is_parse_error(e),
            (!(s@.len() >= 1 && is_space_char(s@[0])) && spec_find_space(s@, 0) is None) ==> r
                == Err::<Statement, AsmError>(AsmError::MissingOperation),
    {
        let n = s.unicode_len();
        if n >= 1 && char_at_is_space(s, 0) {
            let opstr = trim_start_str(s);
            return match Operation::from_str(opstr) {
                Result::Ok(op) => Ok(Statement { loc: None, op }),
                Result::Err(e) => Err(e),
            };
        }
        proof {
            lemma_find_space_props(s@, 0);
        }
        match find_space_from(s, 0) {
            Option::None => Err(AsmError::MissingOperation),
            Option::Some(i) => {
                let locsym = match Symbol::new(s.substring_char(0, i)) {
                    Result::Ok(sym) => sym,
                    Result::Err(e) => {
                        return Err(e);
                    },
                };
                let opstr = trim_start_str(s.substring_char(i + 1, n));
                match Operation::from_str(opstr) {
                    Result::Ok(op) => Ok(Statement { loc: Some(locsym), op }),
                    Result::Err(e) => Err(e),
                }
            },
        }
    }
}

} // verus!
