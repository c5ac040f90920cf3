use vstd::prelude::*;

use crate::assemble::{
    AssemblerState, BaseVal, Emit, EntryRef, LineError, Payload, PendingEqu, MEMORY_SIZE,
};
use crate::error::AsmError;
use crate::expression::SpecExpr;
use crate::instruction::Sign;
use crate::statement::{spec_parse_statement, OperationView};
use crate::value::{flip_sign, spec_eval, EvalResult, MixValue};
use crate::word::{
    spec_alf_word, spec_eval_winner, spec_field_byte_val, spec_insert_field, spec_pack_instruction,
    spec_word_value, zero_word_view, WordResult, WordView,
};
use crate::wval::WValView;

verus! {

// ---------------------------------------------------------------------------
// The driver's state and outputs, mathematically.
// ---------------------------------------------------------------------------

/// The error taxonomy of an assembly run, at the granularity the driver
/// guarantees: one entry per diagnostic, carrying its 1-based line and
/// its kind.  `Syntax` covers every parse-time failure of a line;
/// `Undefined` is the recoverable layout-pass kind, `Unresolved` its
/// terminal resolution-pass counterpart.
#[verifier::ext_equal]
pub enum ErrClass {
    Syntax,
    Duplicate,
    Undefined(Seq<char>),
    Unresolved(Seq<char>),
    DivZero,
    FieldRange,
    Overflow,
}

/// The kind of a concrete error value.
pub open spec fn error_class_of(e: AsmError) -> ErrClass {
    match e {
        AsmError::DuplicateSymbol => ErrClass::Duplicate,
        AsmError::UndefinedSymbol(s) => ErrClass::Undefined(s@),
        AsmError::UnresolvedSymbol(s) => ErrClass::Unresolved(s@),
        AsmError::DivisionByZero => ErrClass::DivZero,
        AsmError::InvalidFieldRange => ErrClass::FieldRange,
        AsmError::WordOverflow => ErrClass::Overflow,
        _ => ErrClass::Syntax,
    }
}

/// Where a reserved word's value comes from.
#[verifier::ext_equal]
pub enum BaseView {
    Inner(Seq<(SpecExpr, SpecExpr)>),
    Literal(int),
}

#[verifier::ext_equal]
pub enum PayloadView {
    Ready(WordView),
    Instr(u8, Sign, BaseView, SpecExpr, SpecExpr),
    Con(BaseView),
    LitWord(int),
}

#[verifier::ext_equal]
pub struct EmitView {
    pub addr: u32,
    pub line_no: int,
    pub payload: PayloadView,
}

#[verifier::ext_equal]
pub struct PendingView {
    pub name: Seq<char>,
    pub base: BaseView,
    pub loc: u32,
    pub line_no: int,
}

#[verifier::ext_equal]
pub struct EntryView {
    pub base: BaseView,
    pub loc: u32,
    pub line_no: int,
}

/// The whole driver state: location counter, high-water mark of placed
/// words, symbol table, pending EQU definitions, reserved words, literal
/// queue and its addresses, diagnostics, entry reference, end marker.
#[verifier::ext_equal]
pub struct LayoutState {
    pub location: u32,
    pub high_water: u32,
    pub symbols: Map<Seq<char>, MixValue>,
    pub pending: Seq<PendingView>,
    pub emits: Seq<EmitView>,
    pub literals: Seq<Seq<(SpecExpr, SpecExpr)>>,
    pub literal_addrs: Seq<u32>,
    pub errors: Seq<(int, ErrClass)>,
    pub entry: Option<EntryView>,
    pub ended: bool,
}

/// What a whole run produces: the word sequence, the entry address, the
/// diagnostics, and the final symbol table.
#[verifier::ext_equal]
pub struct SpecAssembly {
    pub words: Seq<(u32, WordView)>,
    pub entry: u32,
    pub errors: Seq<(int, ErrClass)>,
    pub symbols: Map<Seq<char>, MixValue>,
}

// ---------------------------------------------------------------------------
// Views of the executable driver state.
// ---------------------------------------------------------------------------

pub open spec fn base_view(b: BaseVal) -> BaseView {
    match b {
        BaseVal::Inner(w) => BaseView::Inner(w@),
        BaseVal::Literal(k) => BaseView::Literal(k as int),
    }
}

pub open spec fn payload_view(p: Payload) -> PayloadView {
    match p {
        Payload::Ready(w) => PayloadView::Ready(w@),
        Payload::Instr(op, sign, b, ie, fe) => PayloadView::Instr(
            op,
            sign,
            base_view(b),
            ie@,
            fe@,
        ),
        Payload::Con(b) => PayloadView::Con(base_view(b)),
        Payload::LitWord(k) => PayloadView::LitWord(k as int),
    }
}

pub open spec fn emit_view(e: Emit) -> EmitView {
    EmitView { addr: e.addr, line_no: e.line_no as int, payload: payload_view(e.payload) }
}

pub open spec fn pending_view(p: PendingEqu) -> PendingView {
    PendingView { name: p.name@, base: base_view(p.base), loc: p.loc, line_no: p.line_no as int }
}

pub open spec fn entry_view(e: EntryRef) -> EntryView {
    EntryView { base: base_view(e.base), loc: e.loc, line_no: e.line_no as int }
}

pub open spec fn error_view(e: LineError) -> (int, ErrClass) {
    (e.line_no as int, error_class_of(e.error))
}

pub open spec fn emits_view(s: Seq<Emit>) -> Seq<EmitView> {
    s.map_values(|e: Emit| emit_view(e))
}

pub open spec fn pendings_view(s: Seq<PendingEqu>) -> Seq<PendingView> {
    s.map_values(|p: PendingEqu| pending_view(p))
}

pub open spec fn literals_view(s: Seq<crate::wval::WValInner>) -> Seq<Seq<(SpecExpr, SpecExpr)>> {
    s.map_values(|w: crate::wval::WValInner| w@)
}

pub open spec fn errors_view(s: Seq<LineError>) -> Seq<(int, ErrClass)> {
    s.map_values(|e: LineError| error_view(e))
}

pub open spec fn words_view(s: Seq<(u32, crate::word::MachineWord)>) -> Seq<(u32, WordView)> {
    s.map_values(|t: (u32, crate::word::MachineWord)| (t.0, t.1@))
}

pub open spec fn lines_view(s: Seq<String>) -> Seq<Seq<char>> {
    s.map_values(|l: String| l@)
}

pub open spec fn loc_view(l: Option<crate::symbol::Symbol>) -> Option<Seq<char>> {
    match l {
        Option::Some(sym) => Some(sym@),
        Option::None => None,
    }
}

pub open spec fn state_view(st: AssemblerState) -> LayoutState {
    LayoutState {
        location: st.location,
        high_water: st.high_water,
        symbols: st.symbols@,
        pending: pendings_view(st.pending_equs@),
        emits: emits_view(st.emits@),
        literals: literals_view(st.literals@),
        literal_addrs: st.literal_addrs@,
        errors: errors_view(st.errors@),
        entry: match st.entry {
            Option::Some(er) => Some(entry_view(er)),
            Option::None => None,
        },
        ended: st.ended,
    }
}

// ---------------------------------------------------------------------------
// The layout pass, one step per source line.
// ---------------------------------------------------------------------------

pub open spec fn init_state() -> LayoutState {
    LayoutState {
        location: 0,
        high_water: 0,
        symbols: Map::empty(),
        pending: Seq::empty(),
        emits: Seq::empty(),
        literals: Seq::empty(),
        literal_addrs: Seq::empty(),
        errors: Seq::empty(),
        entry: None,
        ended: false,
    }
}

pub open spec fn push_error(m: LayoutState, line_no: int, k: ErrClass) -> LayoutState {
    LayoutState { errors: m.errors.push((line_no, k)), ..m }
}

/// Binding a symbol: a name already bound is a duplicate-definition
/// diagnostic instead.
pub open spec fn def_symbol(m: LayoutState, name: Seq<char>, v: MixValue, line_no: int) -> LayoutState {
    if m.symbols.dom().contains(name) {
        push_error(m, line_no, ErrClass::Duplicate)
    } else {
        LayoutState { symbols: m.symbols.insert(name, v), ..m }
    }
}

/// A location symbol is bound to the current location counter.
pub open spec fn def_loc(m: LayoutState, loc: Option<Seq<char>>, line_no: int) -> LayoutState {
    match loc {
        Option::None => m,
        Option::Some(name) => def_symbol(
            m,
            name,
            MixValue { sign: Sign::Positive, magnitude: m.location },
            line_no,
        ),
    }
}

/// A future reference queues its inner value as the next literal slot and
/// stands for that slot; a plain W-value stands for itself.
pub open spec fn intern(m: LayoutState, w: WValView) -> (LayoutState, BaseView) {
    match w {
        WValView::Plain(cs) => (m, BaseView::Inner(cs)),
        WValView::Future(cs) => (
            LayoutState { literals: m.literals.push(cs), ..m },
            BaseView::Literal(m.literals.len() as int),
        ),
    }
}

/// One word is reserved at the location counter, which then advances;
/// past the end of memory this is an overflow diagnostic instead.
pub open spec fn reserve(m: LayoutState, p: PayloadView, line_no: int) -> LayoutState {
    if m.location < MEMORY_SIZE {
        let newloc = (m.location + 1) as u32;
        LayoutState {
            emits: m.emits.push(EmitView { addr: m.location, line_no, payload: p }),
            location: newloc,
            high_water: if newloc > m.high_water {
                newloc
            } else {
                m.high_water
            },
            ..m
        }
    } else {
        push_error(m, line_no, ErrClass::Overflow)
    }
}

/// EQU: the location symbol is bound to the operand's value.  An operand
/// that is a future reference, or that mentions a not-yet-bound symbol,
/// becomes a pending definition for the resolution pass.
pub open spec fn equ_line(
    m: LayoutState,
    loc: Option<Seq<char>>,
    w: WValView,
    line_no: int,
) -> LayoutState {
    match loc {
        Option::None => m,
        Option::Some(name) => {
            let (m1, b) = intern(m, w);
            match b {
                BaseView::Literal(_) => LayoutState {
                    pending: m1.pending.push(
                        PendingView { name, base: b, loc: m1.location, line_no },
                    ),
                    ..m1
                },
                BaseView::Inner(cs) => match spec_eval_winner(cs, m1.location, m1.symbols) {
                    WordResult::Word(wv) => def_symbol(m1, name, spec_word_value(wv), line_no),
                    WordResult::Undefined(_) => LayoutState {
                        pending: m1.pending.push(
                            PendingView { name, base: b, loc: m1.location, line_no },
                        ),
                        ..m1
                    },
                    WordResult::Fail(e) => push_error(m1, line_no, error_class_of(e)),
                },
            }
        },
    }
}

/// ORIG: the operand sets the location counter.  It must be evaluable on
/// the spot, so a future-reference operand — whose slot address is
/// unknown until END — is rejected, and an unknown symbol is an error
/// here rather than a pending patch.
pub open spec fn orig_line(m: LayoutState, w: WValView, line_no: int) -> LayoutState {
    match w {
        WValView::Future(_) => push_error(m, line_no, ErrClass::Syntax),
        WValView::Plain(cs) => match spec_eval_winner(cs, m.location, m.symbols) {
            WordResult::Word(wv) => {
                let v = spec_word_value(wv);
                if (v.sign is Negative && v.magnitude > 0) || v.magnitude > MEMORY_SIZE {
                    push_error(m, line_no, ErrClass::Overflow)
                } else {
                    LayoutState { location: v.magnitude, ..m }
                }
            },
            WordResult::Undefined(n) => push_error(m, line_no, ErrClass::Undefined(n)),
            WordResult::Fail(e) => push_error(m, line_no, error_class_of(e)),
        },
    }
}

/// The literal pool: each queued literal gets the next free location past
/// every placed word, one word reserved per slot.
pub open spec fn flush_pool_go(m: LayoutState, line_no: int) -> LayoutState
    decreases m.literals.len() - m.literal_addrs.len(),
{
    if m.literal_addrs.len() >= m.literals.len() {
        m
    } else {
        let k = m.literal_addrs.len() as int;
        let m2 = if m.location < MEMORY_SIZE {
            LayoutState {
                literal_addrs: m.literal_addrs.push(m.location),
                emits: m.emits.push(
                    EmitView { addr: m.location, line_no, payload: PayloadView::LitWord(k) },
                ),
                location: (m.location + 1) as u32,
                ..m
            }
        } else {
            LayoutState {
                literal_addrs: m.literal_addrs.push(0),
                errors: m.errors.push((line_no, ErrClass::Overflow)),
                ..m
            }
        };
        flush_pool_go(m2, line_no)
    }
}

pub open spec fn flush_pool(m: LayoutState, line_no: int) -> LayoutState {
    let m1 = if m.high_water > m.location {
        LayoutState { location: m.high_water, ..m }
    } else {
        m
    };
    flush_pool_go(m1, line_no)
}

/// CON: one constant word is reserved at the location counter.
pub open spec fn con_line(
    m: LayoutState,
    loc: Option<Seq<char>>,
    w: WValView,
    line_no: int,
) -> LayoutState {
    let (m2, b) = intern(def_loc(m, loc, line_no), w);
    reserve(m2, PayloadView::Con(b), line_no)
}

/// ALF: one word of five character codes is reserved.
pub open spec fn alf_line(
    m: LayoutState,
    loc: Option<Seq<char>>,
    d: Seq<char>,
    line_no: int,
) -> LayoutState {
    reserve(def_loc(m, loc, line_no), PayloadView::Ready(spec_alf_word(d)), line_no)
}

/// END: the entry reference is recorded, the literal pool placed, and
/// the program closed.
pub open spec fn end_line(
    m: LayoutState,
    loc: Option<Seq<char>>,
    w: WValView,
    line_no: int,
) -> LayoutState {
    let m1 = def_loc(m, loc, line_no);
    let (m2, b) = intern(m1, w);
    let m3 = LayoutState { entry: Some(EntryView { base: b, loc: m2.location, line_no }), ..m2 };
    LayoutState { ended: true, ..flush_pool(m3, line_no) }
}

/// A machine instruction: one word is reserved, holding everything the
/// resolution pass needs.
pub open spec fn instr_line(
    m: LayoutState,
    loc: Option<Seq<char>>,
    code: u8,
    av: crate::instruction::AddressView,
    line_no: int,
) -> LayoutState {
    let m1 = def_loc(m, loc, line_no);
    let (m2, b) = intern(m1, av.address);
    reserve(m2, PayloadView::Instr(code, av.sign, b, av.index, av.field), line_no)
}

/// The layout pass for one source line.
pub open spec fn step_line(m: LayoutState, line: Seq<char>, line_no: int) -> LayoutState {
    match spec_parse_statement(line) {
        Option::None => push_error(m, line_no, ErrClass::Syntax),
        Option::Some(st) => match st.op {
            OperationView::Equ(w) => equ_line(m, st.loc, w, line_no),
            OperationView::Orig(w) => orig_line(def_loc(m, st.loc, line_no), w, line_no),
            OperationView::Con(w) => con_line(m, st.loc, w, line_no),
            OperationView::Alf(d) => alf_line(m, st.loc, d, line_no),
            OperationView::End(w) => end_line(m, st.loc, w, line_no),
            OperationView::Instruction(code, av) => instr_line(m, st.loc, code, av, line_no),
        },
    }
}

/// The layout pass over the lines from index `i` on; lines after END are
/// ignored.
pub open spec fn run_lines(m: LayoutState, lines: Seq<Seq<char>>, i: int) -> LayoutState
    decreases lines.len() - i,
{
    if i < 0 || i >= lines.len() {
        m
    } else {
        let m2 = if m.ended {
            m
        } else {
            step_line(m, lines[i], i + 1)
        };
        run_lines(m2, lines, i + 1)
    }
}

// ---------------------------------------------------------------------------
// The resolution pass.
// ---------------------------------------------------------------------------

/// What resolving a base comes to.
#[verifier::ext_equal]
pub enum ValResult {
    V(MixValue),
    Undef(Seq<char>),
    Fail(AsmError),
}

/// The value a base stands for: the value of its own word under the
/// symbol table, or the address assigned to its literal slot.
pub open spec fn base_value(b: BaseView, loc: u32, m: LayoutState) -> ValResult {
    match b {
        BaseView::Literal(k) => ValResult::V(
            MixValue { sign: Sign::Positive, magnitude: m.literal_addrs[k] },
        ),
        BaseView::Inner(cs) => match spec_eval_winner(cs, loc, m.symbols) {
            WordResult::Word(wv) => ValResult::V(spec_word_value(wv)),
            WordResult::Undefined(n) => ValResult::Undef(n),
            WordResult::Fail(e) => ValResult::Fail(e),
        },
    }
}

/// One pending EQU definition is retried: bound on success, kept pending
/// (or, on the last sweep, reported unresolved) when its operand still
/// mentions an unknown symbol.
pub open spec fn equ_step(m: LayoutState, p: PendingView, last: bool) -> LayoutState {
    match base_value(p.base, p.loc, m) {
        ValResult::V(v) => def_symbol(m, p.name, v, p.line_no),
        ValResult::Undef(n) => if last {
            push_error(m, p.line_no, ErrClass::Unresolved(n))
        } else {
            LayoutState { pending: m.pending.push(p), ..m }
        },
        ValResult::Fail(e) => push_error(m, p.line_no, error_class_of(e)),
    }
}

/// One sweep over the pending EQU definitions, front first.  With `last`
/// set, a definition whose operand still mentions an unknown symbol is a
/// terminal unresolved-symbol diagnostic instead of staying pending.
pub open spec fn equ_sweep_go(m: LayoutState, todo: Seq<PendingView>, last: bool) -> LayoutState
    decreases todo.len(),
{
    if todo.len() == 0 {
        m
    } else {
        equ_sweep_go(equ_step(m, todo[0], last), todo.drop_first(), last)
    }
}

pub open spec fn equ_sweep(m: LayoutState, last: bool) -> LayoutState {
    equ_sweep_go(LayoutState { pending: Seq::empty(), ..m }, m.pending, last)
}

pub open spec fn equ_fixpoint_go(m: LayoutState, rounds: int) -> LayoutState
    decreases rounds,
{
    if rounds <= 0 {
        m
    } else {
        equ_fixpoint_go(equ_sweep(m, false), rounds - 1)
    }
}

/// Pending EQU resolution: one sweep per pending definition — chains
/// resolve one link per sweep — then a final sweep that turns what is
/// still unknown into diagnostics.
pub open spec fn equ_fixpoint(m: LayoutState) -> LayoutState {
    equ_sweep(equ_fixpoint_go(m, m.pending.len() as int), true)
}

/// Unrolling one more fixpoint round from the outside.
#[verifier::spinoff_prover]
pub proof fn lemma_fixpoint_step(m: LayoutState, k: int)
    requires
        k >= 0,
    ensures
        equ_fixpoint_go(m, k + 1) == equ_sweep(equ_fixpoint_go(m, k), false),
    decreases k,
{
    if k == 0 {
        assert(equ_fixpoint_go(m, 0) == m);
        assert(equ_fixpoint_go(m, 1) == equ_fixpoint_go(equ_sweep(m, false), 0));
    } else {
        lemma_fixpoint_step(equ_sweep(m, false), k - 1);
        assert(equ_fixpoint_go(m, k + 1) == equ_fixpoint_go(equ_sweep(m, false), k));
        assert(equ_fixpoint_go(m, k) == equ_fixpoint_go(equ_sweep(m, false), k - 1));
    }
}

/// Resolution of the reserved words, in order: each becomes one output
/// word — an instruction packed from its resolved address value, index
/// byte, field byte and operation code; a constant's own word; a literal
/// slot's word; or the word already packed — or one diagnostic.
pub open spec fn resolve_step(
    m: LayoutState,
    e: EmitView,
    out: Seq<(u32, WordView)>,
) -> (LayoutState, Seq<(u32, WordView)>) {
    match e.payload {
            PayloadView::Ready(wv) => (m, out.push((e.addr, wv))),
            PayloadView::Con(b) => match b {
                BaseView::Literal(k) => (
                    m,
                    out.push(
                        (
                            e.addr,
                            spec_insert_field(
                                zero_word_view(),
                                0,
                                5,
                                MixValue { sign: Sign::Positive, magnitude: m.literal_addrs[k] },
                            ),
                        ),
                    ),
                ),
                BaseView::Inner(cs) => match spec_eval_winner(cs, e.addr, m.symbols) {
                    WordResult::Word(wv) => (m, out.push((e.addr, wv))),
                    WordResult::Undefined(n) => (
                        push_error(m, e.line_no, ErrClass::Unresolved(n)),
                        out,
                    ),
                    WordResult::Fail(er) => (push_error(m, e.line_no, error_class_of(er)), out),
                },
            },
            PayloadView::LitWord(k) => match spec_eval_winner(m.literals[k], e.addr, m.symbols) {
                WordResult::Word(wv) => (m, out.push((e.addr, wv))),
                WordResult::Undefined(n) => (
                    push_error(m, e.line_no, ErrClass::Unresolved(n)),
                    out,
                ),
                WordResult::Fail(er) => (push_error(m, e.line_no, error_class_of(er)), out),
            },
            PayloadView::Instr(code, sign, b, ie, fe) => match base_value(b, e.addr, m) {
                ValResult::Undef(n) => (push_error(m, e.line_no, ErrClass::Unresolved(n)), out),
                ValResult::Fail(er) => (push_error(m, e.line_no, error_class_of(er)), out),
                ValResult::V(bv) => {
                    let eff = if sign is Negative {
                        flip_sign(bv.sign)
                    } else {
                        bv.sign
                    };
                    match spec_eval(ie, e.addr, m.symbols) {
                        EvalResult::Undefined(n) => (
                            push_error(m, e.line_no, ErrClass::Unresolved(n)),
                            out,
                        ),
                        EvalResult::DivZero => (push_error(m, e.line_no, ErrClass::DivZero), out),
                        EvalResult::Val(iv) => {
                            let ib = (iv.magnitude % 64) as u8;
                            match spec_eval(fe, e.addr, m.symbols) {
                                EvalResult::Undefined(n) => (
                                    push_error(m, e.line_no, ErrClass::Unresolved(n)),
                                    out,
                                ),
                                EvalResult::DivZero => (
                                    push_error(m, e.line_no, ErrClass::DivZero),
                                    out,
                                ),
                                EvalResult::Val(fv) => match spec_field_byte_val(fv) {
                                    Option::None => (
                                        push_error(m, e.line_no, ErrClass::FieldRange),
                                        out,
                                    ),
                                    Option::Some(fb) => (
                                        m,
                                        out.push(
                                            (
                                                e.addr,
                                                spec_pack_instruction(
                                                    MixValue { sign: eff, magnitude: bv.magnitude },
                                                    ib,
                                                    fb,
                                                    code,
                                                ),
                                            ),
                                        ),
                                    ),
                                },
                            }
                        },
                    }
                },
            },
    }
}

pub open spec fn resolve_go(
    m: LayoutState,
    todo: Seq<EmitView>,
    out: Seq<(u32, WordView)>,
) -> (LayoutState, Seq<(u32, WordView)>)
    decreases todo.len(),
{
    if todo.len() == 0 {
        (m, out)
    } else {
        let step = resolve_step(m, todo[0], out);
        resolve_go(step.0, todo.drop_first(), step.1)
    }
}

pub open spec fn resolve_words(m: LayoutState) -> (LayoutState, Seq<(u32, WordView)>) {
    resolve_go(LayoutState { emits: Seq::empty(), ..m }, m.emits, Seq::empty())
}

/// The entry address from END's operand: 0 without an END; otherwise the
/// resolved value, which must name a memory address.
pub open spec fn entry_value(m: LayoutState) -> (LayoutState, u32) {
    match m.entry {
        Option::None => (m, 0),
        Option::Some(er) => {
            let m1 = LayoutState { entry: None, ..m };
            match base_value(er.base, er.loc, m1) {
                ValResult::V(v) => if (v.sign is Negative && v.magnitude > 0) || v.magnitude
                    >= MEMORY_SIZE {
                    (push_error(m1, er.line_no, ErrClass::Overflow), 0)
                } else {
                    (m1, v.magnitude)
                },
                ValResult::Undef(n) => (push_error(m1, er.line_no, ErrClass::Unresolved(n)), 0),
                ValResult::Fail(e) => (push_error(m1, er.line_no, error_class_of(e)), 0),
            }
        },
    }
}

/// The whole run: the layout pass over the lines in order, the literal
/// pool flushed at END (or after the last line when END is missing), the
/// pending EQU fixpoint, then resolution of every reserved word and of
/// the entry address.
pub open spec fn spec_assemble(lines: Seq<Seq<char>>) -> SpecAssembly {
    let m1 = run_lines(init_state(), lines, 0);
    let m2 = if !m1.ended {
        flush_pool(m1, lines.len() as int)
    } else {
        m1
    };
    let m3 = equ_fixpoint(m2);
    let r4 = resolve_words(m3);
    let r5 = entry_value(r4.0);
    SpecAssembly { words: r4.1, entry: r5.1, errors: r5.0.errors, symbols: r5.0.symbols }
}

} // verus!
