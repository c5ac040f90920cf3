use vstd::prelude::*;

verus! {

/// The error kinds an assembly run can produce.
///
/// `UndefinedSymbol` is the one recoverable kind: during the layout pass it
/// turns into a pending patch that the resolution pass retries once the
/// symbol table is complete.  A symbol still unknown at that point is
/// reported as the terminal `UnresolvedSymbol`.
#[derive(Debug, PartialEq, Eq)]
pub enum AsmError {
    /// Symbol text is empty, too long, has a character outside A-Z0-9,
    /// or has no letter.
    InvalidSymbol,
    /// Numeric literal longer than 10 digits.
    NumberTooLong,
    /// Numeric literal with a non-digit character, or too large a value.
    InvalidDigits,
    /// Expression text that fits no rule of the expression grammar.
    MalformedExpression,
    /// Field text without the `(...)` shape, or with a malformed inner
    /// expression.
    InvalidField,
    /// A field value that is not a pair L:R with 0 <= L <= R <= 5 where a
    /// byte range is required, or not a single byte where an instruction
    /// field byte is required.
    InvalidFieldRange,
    /// `=...=` text without a well-formed inner W-value.
    InvalidFutureRef,
    /// W-value text over 10 characters.
    WValTooLong,
    /// ALF character data without one or two leading blanks.
    AlfLeadingSpaces,
    /// ALF character data whose payload is not exactly 5 characters.
    AlfCharCount,
    /// ALF character data with a character outside the MIX alphabet.
    AlfInvalidChar,
    /// A line with a location field but no operation field.
    MissingOperation,
    /// A pseudo-operation that needs an operand but got none.
    MissingOperand,
    /// An operation field that is neither a pseudo-operation nor a known
    /// instruction mnemonic.
    UnrecognizedMnemonic,
    /// A location or EQU symbol defined more than once.
    DuplicateSymbol,
    /// A symbol not (yet) present in the symbol table; recoverable during
    /// the layout pass.
    UndefinedSymbol(String),
    /// A symbol used but never defined anywhere in the program.
    UnresolvedSymbol(String),
    /// Division or scaled division by zero.
    DivisionByZero,
    /// A value that does not fit where it must: a location outside the
    /// 4000-word memory, or an entry address out of range.
    WordOverflow,
}

/// The kinds parsing can produce: spec-level syntax failures of one
/// line, including an unrecognized operation mnemonic — as opposed to
/// the definition, evaluation and packing kinds the assembly run itself
/// raises.
pub open spec fn is_parse_error(e: AsmError) -> bool {
    match e {
        AsmError::InvalidSymbol => true,
        AsmError::NumberTooLong => true,
        AsmError::InvalidDigits => true,
        AsmError::MalformedExpression => true,
        AsmError::InvalidField => true,
        AsmError::InvalidFutureRef => true,
        AsmError::WValTooLong => true,
        AsmError::AlfLeadingSpaces => true,
        AsmError::AlfCharCount => true,
        AsmError::AlfInvalidChar => true,
        AsmError::MissingOperation => true,
        AsmError::MissingOperand => true,
        AsmError::UnrecognizedMnemonic => true,
        _ => false,
    }
}

impl AsmError {
    /// A human-readable description of the error kind.
    pub fn message(&self) -> &'static str {
        match self {
            AsmError::InvalidSymbol => "Invalid symbol: must be 1 to 10 characters from A-Z0-9 with at least one letter",
            AsmError::NumberTooLong => "Number too big: numbers cannot be larger than 10 digits",
            AsmError::InvalidDigits => "Invalid number: must be unsigned decimal digits fitting the numeric type",
            AsmError::MalformedExpression => "Malformed expression",
            AsmError::InvalidField => "Invalid field specifier",
            AsmError::InvalidFieldRange => "Invalid field range",
            AsmError::InvalidFutureRef => "Invalid WValue future reference, missing wrapping '='",
            AsmError::WValTooLong => "WValue too long, maximum 10 characters",
            AsmError::AlfLeadingSpaces => "ALF pseudo-op character data must have exactly one or two leading blank spaces",
            AsmError::AlfCharCount => "ALF pseudo-op must be given exactly 5 characters",
            AsmError::AlfInvalidChar => "Invalid character in ALF character data",
            AsmError::MissingOperation => "Missing OP field after LOC field",
            AsmError::MissingOperand => "Missing operand",
            AsmError::UnrecognizedMnemonic => "Unrecognized opcode",
            AsmError::DuplicateSymbol => "Symbol defined more than once",
            AsmError::UndefinedSymbol(_) => "Undefined symbol",
            AsmError::UnresolvedSymbol(_) => "Unresolved symbol: used but never defined",
            AsmError::DivisionByZero => "Division by zero",
            AsmError::WordOverflow => "Value out of range for the 4000-word memory",
        }
    }
}

} // verus!
