use mixal::assemble::assemble_lines;
use mixal::error::AsmError;
use mixal::instruction::Sign;
use mixal::word::MachineWord;

fn lines(texts: &[&str]) -> Vec<String> {
    texts.iter().map(|s| s.to_string()).collect()
}

fn word(sign: Sign, bytes: [u8; 5]) -> MachineWord {
    MachineWord { sign, bytes: bytes.to_vec() }
}

#[test]
fn test_end_to_end_two_instructions() {
    // STA's opcode is 24 and JMP's is 39; two words at addresses 0 and 1,
    // entry address 0, no unresolved symbols.
    let prog = assemble_lines(&lines(&[
        "START STA 2000",
        "      JMP START",
        "      END START",
    ]))
    .unwrap();
    assert_eq!(prog.entry, 0);
    assert_eq!(prog.words.len(), 2);
    // 2000 = 31*64 + 16; default field (0:5) packs as byte 5.
    assert_eq!(prog.words[0].0, 0);
    assert_eq!(prog.words[0].1, word(Sign::Positive, [31, 16, 0, 5, 24]));
    // JMP's default field text is 0, and START resolves to 0.
    assert_eq!(prog.words[1].0, 1);
    assert_eq!(prog.words[1].1, word(Sign::Positive, [0, 0, 0, 0, 39]));
}

#[test]
fn test_forward_reference_resolved() {
    // JMP DONE appears before DONE is defined; the pending patch resolves
    // in the second pass.
    let prog = assemble_lines(&lines(&[
        "      JMP DONE",
        "DONE  NOP",
        "      END DONE",
    ]))
    .unwrap();
    assert_eq!(prog.entry, 1);
    assert_eq!(prog.words.len(), 2);
    assert_eq!(prog.words[0].1, word(Sign::Positive, [0, 1, 0, 0, 39]));
    // NOP's default field text is 0:5, so its field byte is 5.
    assert_eq!(prog.words[1].1, word(Sign::Positive, [0, 0, 0, 5, 0]));
}

#[test]
fn test_future_reference_literal_pool() {
    // CON =5= emits, at the CON's own location, the address of a literal
    // slot holding the word value 5.
    let prog = assemble_lines(&lines(&["      CON =5=", "      END 0"])).unwrap();
    assert_eq!(prog.words.len(), 2);
    // The CON word at address 0 holds the literal slot's address, 1.
    assert_eq!(prog.words[0].0, 0);
    assert_eq!(prog.words[0].1, word(Sign::Positive, [0, 0, 0, 0, 1]));
    // The literal slot at address 1 holds the value 5.
    assert_eq!(prog.words[1].0, 1);
    assert_eq!(prog.words[1].1, word(Sign::Positive, [0, 0, 0, 0, 5]));
}

#[test]
fn test_two_identical_literals_get_two_slots() {
    // Each occurrence of =5= gets a slot of its own, and each resolves to
    // a real slot holding 5.
    let prog = assemble_lines(&lines(&["      CON =5=", "      CON =5=", "      END 0"]))
        .unwrap();
    assert_eq!(prog.words.len(), 4);
    let a0 = prog.words[0].1.bytes[4];
    let a1 = prog.words[1].1.bytes[4];
    assert_ne!(a0, a1);
    assert_eq!(prog.words[2].1, word(Sign::Positive, [0, 0, 0, 0, 5]));
    assert_eq!(prog.words[3].1, word(Sign::Positive, [0, 0, 0, 0, 5]));
}

#[test]
fn test_literal_pool_after_backward_orig() {
    // A backward ORIG before END must not land the pool on an address
    // that already holds a word: the pool starts past every placed word.
    let prog = assemble_lines(&lines(&["      CON =5=", "      ORIG 0", "      END 0"]))
        .unwrap();
    assert_eq!(prog.words.len(), 2);
    // The CON word at 0 holds the slot's address 1; the slot at 1 holds 5.
    assert_eq!(prog.words[0].0, 0);
    assert_eq!(prog.words[0].1, word(Sign::Positive, [0, 0, 0, 0, 1]));
    assert_eq!(prog.words[1].0, 1);
    assert_eq!(prog.words[1].1, word(Sign::Positive, [0, 0, 0, 0, 5]));
}

#[test]
fn test_equ_and_orig() {
    let prog = assemble_lines(&lines(&[
        "X     EQU 1000",
        "      ORIG X+3",
        "Y     CON 7",
        "      END 0",
    ]))
    .unwrap();
    assert_eq!(prog.words.len(), 1);
    assert_eq!(prog.words[0].0, 1003);
    assert_eq!(prog.words[0].1, word(Sign::Positive, [0, 0, 0, 0, 7]));
    let y = prog.symbols.lookup("Y").unwrap();
    assert_eq!(y.magnitude, 1003);
}

#[test]
fn test_equ_forward_chain() {
    // A EQU B+1 can only resolve after B EQU 2 does: one link per round.
    let prog = assemble_lines(&lines(&[
        "A     EQU B+1",
        "B     EQU 2",
        "      CON A",
        "      END 0",
    ]))
    .unwrap();
    assert_eq!(prog.words[0].1, word(Sign::Positive, [0, 0, 0, 0, 3]));
}

#[test]
fn test_alf_word() {
    let prog = assemble_lines(&lines(&["      ALF  HELLO", "      END 0"])).unwrap();
    // H=8 E=5 L=13 L=13 O=16 in the MIX character code.
    assert_eq!(prog.words[0].1, word(Sign::Positive, [8, 5, 13, 13, 16]));
}

#[test]
fn test_con_multiple_components() {
    // 1(4:4),2(5:5): later components overwrite within their own ranges.
    let prog = assemble_lines(&lines(&["      CON 1(4:4),2", "      END 0"])).unwrap();
    // The second component's field defaults to (0:5) and overwrites all.
    assert_eq!(prog.words[0].1, word(Sign::Positive, [0, 0, 0, 0, 2]));
}

#[test]
fn test_con_field_overwrite_order() {
    let prog = assemble_lines(&lines(&["      CON 7,1(5:5)", "      END 0"])).unwrap();
    // 7 fills the word, then 1 overwrites the last byte.
    assert_eq!(prog.words[0].1, word(Sign::Positive, [0, 0, 0, 0, 1]));
}

#[test]
fn test_unresolved_symbol_is_an_error() {
    let errs = assemble_lines(&lines(&["      JMP NOWHERE", "      END 0"])).unwrap_err();
    assert_eq!(errs.len(), 1);
    assert_eq!(errs[0].line_no, 1);
    assert_eq!(
        errs[0].error,
        AsmError::UnresolvedSymbol("NOWHERE".to_string())
    );
}

#[test]
fn test_duplicate_location_symbol_is_an_error() {
    let errs = assemble_lines(&lines(&["X     NOP", "X     NOP", "      END 0"]))
        .unwrap_err();
    assert_eq!(errs.len(), 1);
    assert_eq!(errs[0].line_no, 2);
    assert_eq!(errs[0].error, AsmError::DuplicateSymbol);
}

#[test]
fn test_division_by_zero_in_operand() {
    let errs = assemble_lines(&lines(&["      CON 1/0", "      END 0"])).unwrap_err();
    assert_eq!(errs[0].error, AsmError::DivisionByZero);
}

#[test]
fn test_orig_out_of_memory() {
    let errs = assemble_lines(&lines(&["      ORIG 4500", "      END 0"])).unwrap_err();
    assert_eq!(errs[0].error, AsmError::WordOverflow);
}

#[test]
fn test_errors_are_collected_across_lines() {
    // Batch diagnostics: both bad lines are reported, not just the first.
    let errs = assemble_lines(&lines(&[
        "      FROB 1",
        "      CON 1/0",
        "      END 0",
    ]))
    .unwrap_err();
    assert_eq!(errs.len(), 2);
    assert_eq!(errs[0].line_no, 1);
    assert_eq!(errs[0].error, AsmError::UnrecognizedMnemonic);
    assert_eq!(errs[1].line_no, 2);
    assert_eq!(errs[1].error, AsmError::DivisionByZero);
}

#[test]
fn test_missing_operation_error() {
    let errs = assemble_lines(&lines(&["LONELY", "      END 0"])).unwrap_err();
    assert_eq!(errs[0].error, AsmError::MissingOperation);
}

#[test]
fn test_lines_after_end_are_ignored() {
    let prog = assemble_lines(&lines(&["      NOP", "      END 0", "garbage here"]))
        .unwrap();
    assert_eq!(prog.words.len(), 1);
}

#[test]
fn test_missing_end_means_entry_zero() {
    let prog = assemble_lines(&lines(&["      NOP"])).unwrap();
    assert_eq!(prog.entry, 0);
    assert_eq!(prog.words.len(), 1);
}

#[test]
fn test_float_mnemonic_default_field() {
    // FADD's default field text is 6: the field byte is 6, not 8L+R of a
    // range.  100 = 1*64 + 36.
    let prog = assemble_lines(&lines(&["      FADD 100", "      END 0"])).unwrap();
    assert_eq!(prog.words[0].1, word(Sign::Positive, [1, 36, 0, 6, 1]));
}

#[test]
fn test_negative_zero_constant() {
    // MIX keeps sign and magnitude apart: CON -0 packs a negative word of
    // all-zero bytes.
    let prog = assemble_lines(&lines(&["      CON -0", "      END 0"])).unwrap();
    assert_eq!(prog.words[0].1, word(Sign::Negative, [0, 0, 0, 0, 0]));
}

#[test]
fn test_equ_of_location_counter() {
    // '*' in an EQU operand is the location counter at that line.
    let prog = assemble_lines(&lines(&[
        "      NOP",
        "      NOP",
        "HERE  EQU *",
        "      CON HERE",
        "      END 0",
    ]))
    .unwrap();
    // HERE is 2: two NOP words were laid out before the EQU line.
    assert_eq!(prog.words[2].1, word(Sign::Positive, [0, 0, 0, 0, 2]));
}

#[test]
fn test_negative_address_sign() {
    let prog = assemble_lines(&lines(&["      STA -2000", "      END 0"])).unwrap();
    assert_eq!(prog.words[0].1, word(Sign::Negative, [31, 16, 0, 5, 24]));
}

#[test]
fn test_indexed_instruction_with_field() {
    // LDA 2000,2(0:3): index byte 2, field byte 3.
    let prog = assemble_lines(&lines(&["      LDA 2000,2(0:3)", "      END 0"])).unwrap();
    assert_eq!(prog.words[0].1, word(Sign::Positive, [31, 16, 2, 3, 8]));
}
