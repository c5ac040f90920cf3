use vstd::prelude::*;

use crate::error::AsmError;
use crate::expression::Expression;
use crate::model::{
    def_symbol, emit_view, emits_view, entry_value, equ_fixpoint, equ_fixpoint_go, equ_sweep, equ_sweep_go,
    error_class_of, errors_view, flush_pool, flush_pool_go, init_state, intern, lines_view,
    literals_view, pending_view, pendings_view, push_error, reserve, resolve_go, resolve_words,
    run_lines, spec_assemble,
    state_view, step_line, words_view, base_view, payload_view, BaseView, ErrClass, LayoutState,
};
use crate::field::Field;
use crate::instruction::Sign;
use crate::alf::Alf;
use crate::statement::{lemma_parse_statement_ranges, Con, End, Operation, Orig, Statement};
use crate::symbol::Symbol;
use crate::value::{wf_env, wf_value, MixValue, SymbolTable};
use crate::word::{
    field_byte_val, pack_instruction, spec_eval_winner, spec_word_value, wf_word, word_of_value,
    word_value, MachineWord, WordResult,
};
use crate::wval::{WVal, WValInner};

verus! {

/// The memory size of the machine: addresses run from 0 to 3999.
pub const MEMORY_SIZE: u32 = 4000;

/// Where a W-value's word comes from during resolution: its own
/// components, or — for a future reference — the address assigned to a
/// literal-pool slot.
#[derive(Debug)]
pub enum BaseVal {
    Inner(WValInner),
    Literal(usize),
}

/// What fills a reserved word once the symbol table is complete.
#[derive(Debug)]
pub enum Payload {
    /// A word already packed during the layout pass.
    Ready(MachineWord),
    /// An instruction: operation code, address sign, base W-value, index
    /// expression and field, re-evaluated during resolution.
    Instr(u8, Sign, BaseVal, Expression, Field),
    /// A constant from a CON operand.
    Con(BaseVal),
    /// The word of literal-pool slot `k`, placed at END.
    LitWord(usize),
}

/// One word reserved during the layout pass.
#[derive(Debug)]
pub struct Emit {
    pub addr: u32,
    pub line_no: usize,
    pub line: String,
    pub payload: Payload,
}

/// An EQU whose operand was not yet evaluable during layout.
#[derive(Debug)]
pub struct PendingEqu {
    pub name: Symbol,
    pub base: BaseVal,
    pub loc: u32,
    pub line_no: usize,
    pub line: String,
}

/// Where END points, resolved once the table is complete.
#[derive(Debug)]
pub struct EntryRef {
    pub base: BaseVal,
    pub loc: u32,
    pub line_no: usize,
    pub line: String,
}

/// An error with the 1-based index and text of the line it belongs to.
#[derive(Debug)]
pub struct LineError {
    pub line_no: usize,
    pub line: String,
    pub error: AsmError,
}

/// The finished assembly: the `(address, word)` pairs in source order
/// (literal-pool words last), the entry address from END, and the final
/// symbol table.
#[derive(Debug)]
pub struct AssembledProgram {
    pub words: Vec<(u32, MachineWord)>,
    pub entry: u32,
    pub symbols: SymbolTable,
}

pub open spec fn wf_program(p: &AssembledProgram) -> bool {
    &&& forall|i: int|
        0 <= i < p.words@.len() ==> (#[trigger] p.words@[i]).0 < MEMORY_SIZE && wf_word(
            p.words@[i].1@,
        )
    &&& p.entry < MEMORY_SIZE
    &&& wf_env(p.symbols@)
}

pub open spec fn base_ok(b: &BaseVal, nlit: int) -> bool {
    match b {
        BaseVal::Literal(k) => (*k as int) < nlit,
        BaseVal::Inner(_) => true,
    }
}

pub open spec fn emit_ok(e: &Emit, nlit: int) -> bool {
    &&& e.addr < MEMORY_SIZE
    &&& match e.payload {
        Payload::Ready(w) => wf_word(w@),
        Payload::Instr(op, _, b, _, _) => op < 64 && base_ok(&b, nlit),
        Payload::Con(b) => base_ok(&b, nlit),
        Payload::LitWord(k) => (k as int) < nlit,
    }
}

/// `post` keeps every element of `pre`, in place, and may only append.
pub open spec fn seq_extends<A>(pre: Seq<A>, post: Seq<A>) -> bool {
    pre.len() <= post.len() && forall|i: int| 0 <= i < pre.len() ==> pre[i] == #[trigger] post[i]
}

/// What the layout pass may do to the state, never undo: reserved words
/// and errors are only appended, in source order, and the symbol table
/// only gains bindings.
pub open spec fn grows_from(pre: &AssemblerState, post: &AssemblerState) -> bool {
    &&& seq_extends(pre.emits@, post.emits@)
    &&& seq_extends(pre.errors@, post.errors@)
    &&& pre.symbols@.submap_of(post.symbols@)
}

/// The two-pass driver's state: the location counter, the symbol table,
/// the reserved words, the literal-constant queue, the pending EQU list,
/// and the errors collected so far.
#[derive(Debug)]
pub struct AssemblerState {
    pub location: u32,
    pub high_water: u32,
    pub symbols: SymbolTable,
    pub pending_equs: Vec<PendingEqu>,
    pub emits: Vec<Emit>,
    pub literals: Vec<WValInner>,
    pub literal_addrs: Vec<u32>,
    pub errors: Vec<LineError>,
    pub entry: Option<EntryRef>,
    pub ended: bool,
}

pub open spec fn wf_state(st: &AssemblerState) -> bool {
    &&& st.location <= MEMORY_SIZE
    &&& st.high_water <= MEMORY_SIZE
    &&& wf_env(st.symbols@)
    &&& forall|i: int|
        0 <= i < st.emits@.len() ==> emit_ok(&#[trigger] st.emits@[i], st.literals@.len() as int)
    &&& forall|i: int|
        0 <= i < st.pending_equs@.len() ==> base_ok(
            &(#[trigger] st.pending_equs@[i]).base,
            st.literals@.len() as int,
        )
    &&& match st.entry {
        Option::Some(er) => base_ok(&er.base, st.literals@.len() as int),
        Option::None => true,
    }
    &&& st.literal_addrs@.len() <= st.literals@.len()
    &&& forall|i: int| 0 <= i < st.literal_addrs@.len() ==> #[trigger] st.literal_addrs@[i]
        < MEMORY_SIZE
}

impl AssemblerState {
    /// A fresh assembly: location counter 0, everything empty.
    pub fn new() -> (st: AssemblerState)
        ensures
            wf_state(&st),
            st.location == 0,
            st.high_water == 0,
            !st.ended,
            st.literal_addrs@.len() == 0,
            st.errors@.len() == 0,
            st.literals@.len() == 0,
            st.pending_equs@.len() == 0,
            st.emits@.len() == 0,
            st.entry is None,
            state_view(st) == init_state(),
    {
        let st = AssemblerState {
            location: 0,
            high_water: 0,
            symbols: SymbolTable::new(),
            pending_equs: Vec::new(),
            emits: Vec::new(),
            literals: Vec::new(),
            literal_addrs: Vec::new(),
            errors: Vec::new(),
            entry: None,
            ended: false,
        };
        proof {
            assert(pendings_view(st.pending_equs@) =~= Seq::<crate::model::PendingView>::empty());
            assert(emits_view(st.emits@) =~= Seq::<crate::model::EmitView>::empty());
            assert(literals_view(st.literals@) =~= Seq::<
                Seq<(crate::expression::SpecExpr, crate::expression::SpecExpr)>,
            >::empty());
            assert(errors_view(st.errors@) =~= Seq::<(int, ErrClass)>::empty());
            assert(st.literal_addrs@ =~= Seq::<u32>::empty());
            assert(state_view(st) == init_state());
        }
        st
    }

    /// Turns a parsed W-value into a resolvable base, queueing the inner
    /// value of a future reference as the next literal-pool slot.
    fn intern_wval(&mut self, w: WVal) -> (b: BaseVal)
        requires
            wf_state(old(self)),
        ensures
            wf_state(final(self)),
            state_view(*final(self)) == intern(state_view(*old(self)), w@).0,
            base_view(b) == intern(state_view(*old(self)), w@).1,
            base_ok(&b, final(self).literals@.len() as int),
            final(self).literals@.len() >= old(self).literals@.len(),
            final(self).location == old(self).location,
            final(self).high_water == old(self).high_water,
            final(self).symbols == old(self).symbols,
            final(self).pending_equs == old(self).pending_equs,
            final(self).emits == old(self).emits,
            final(self).literal_addrs == old(self).literal_addrs,
            final(self).errors == old(self).errors,
            final(self).entry == old(self).entry,
            final(self).ended == old(self).ended,
    {
        match w {
            WVal::WValInner(inner) => BaseVal::Inner(inner),
            WVal::FutureRef(f) => {
                let k = self.literals.len();
                self.literals.push(f.wval);
                proof {
                    assert(state_view(*self) =~~= intern(state_view(*old(self)), w@).0);
                }
                BaseVal::Literal(k)
            },
        }
    }

    /// Records an error against a line.
    fn record_error(&mut self, line_no: usize, line: &str, error: AsmError)
        requires
            wf_state(old(self)),
        ensures
            wf_state(final(self)),
            grows_from(old(self), final(self)),
            state_view(*final(self)) == push_error(
                state_view(*old(self)),
                line_no as int,
                error_class_of(error),
            ),
            final(self).errors@.len() == old(self).errors@.len() + 1,
            final(self).location == old(self).location,
            final(self).high_water == old(self).high_water,
            final(self).symbols == old(self).symbols,
            final(self).pending_equs == old(self).pending_equs,
            final(self).emits == old(self).emits,
            final(self).literals == old(self).literals,
            final(self).literal_addrs == old(self).literal_addrs,
            final(self).entry == old(self).entry,
            final(self).ended == old(self).ended,
    {
        let ghost target = push_error(state_view(*self), line_no as int, error_class_of(error));
        self.errors.push(LineError { line_no, line: line.to_owned(), error });
        proof {
            assert(state_view(*self) =~~= target);
        }
    }

    /// Defines a location symbol at the current location counter.
    fn define_loc_here(&mut self, sym: Symbol, line_no: usize, line: &str)
        requires
            wf_state(old(self)),
        ensures
            wf_state(final(self)),
            grows_from(old(self), final(self)),
            state_view(*final(self)) == def_symbol(
                state_view(*old(self)),
                sym@,
                MixValue { sign: Sign::Positive, magnitude: old(self).location },
                line_no as int,
            ),
            !old(self).symbols@.dom().contains(sym@) ==> final(self).symbols@ == old(self).symbols@.insert(
                sym@,
                MixValue { sign: Sign::Positive, magnitude: old(self).location },
            ) && final(self).errors == old(self).errors,
            old(self).symbols@.dom().contains(sym@) ==> final(self).symbols == old(self).symbols
                && final(self).errors@.len() == old(self).errors@.len() + 1,
            final(self).location == old(self).location,
            final(self).high_water == old(self).high_water,
            final(self).emits == old(self).emits,
            final(self).literals == old(self).literals,
            final(self).literal_addrs == old(self).literal_addrs,
            final(self).pending_equs == old(self).pending_equs,
            final(self).entry == old(self).entry,
            final(self).ended == old(self).ended,
    {
        let ghost target = def_symbol(
            state_view(*self),
            sym@,
            MixValue { sign: Sign::Positive, magnitude: self.location },
            line_no as int,
        );
        let v = MixValue { sign: Sign::Positive, magnitude: self.location };
        match self.symbols.define(sym, v) {
            Result::Ok(()) => {
                proof {
                    assert(state_view(*self) =~~= target);
                }
            },
            Result::Err(e) => {
                self.record_error(line_no, line, e);
                proof {
                    assert(state_view(*self) =~~= target);
                }
            },
        }
    }

    /// Reserves the next word for `payload`; a location counter already
    /// past the end of memory is an overflow error instead.
    fn emit_here(&mut self, payload: Payload, line_no: usize, line: &str)
        requires
            wf_state(old(self)),
            match payload {
                Payload::Ready(w) => wf_word(w@),
                Payload::Instr(op, _, b, _, _) => op < 64 && base_ok(
                    &b,
                    old(self).literals@.len() as int,
                ),
                Payload::Con(b) => base_ok(&b, old(self).literals@.len() as int),
                Payload::LitWord(k) => (k as int) < old(self).literals@.len(),
            },
        ensures
            wf_state(final(self)),
            grows_from(old(self), final(self)),
            state_view(*final(self)) == reserve(
                state_view(*old(self)),
                payload_view(payload),
                line_no as int,
            ),
            old(self).location < MEMORY_SIZE ==> final(self).emits@.len() == old(self).emits@.len() + 1 && final(self).emits@.last().addr == old(self).location && final(self).emits@.last().line_no == line_no && final(self).location == old(self).location + 1,
            old(self).location >= MEMORY_SIZE ==> final(self).emits == old(self).emits && final(self).location == old(self).location && final(self).errors@.len() == old(self).errors@.len() + 1,
            final(self).literals == old(self).literals,
            final(self).literal_addrs == old(self).literal_addrs,
            final(self).pending_equs == old(self).pending_equs,
            final(self).entry == old(self).entry,
            final(self).ended == old(self).ended,
            final(self).symbols == old(self).symbols,
    {
        let ghost target = reserve(state_view(*self), payload_view(payload), line_no as int);
        if self.location < MEMORY_SIZE {
            self.emits.push(
                Emit { addr: self.location, line_no, line: line.to_owned(), payload },
            );
            self.location = self.location + 1;
            if self.location > self.high_water {
                self.high_water = self.location;
            }
            proof {
                assert(state_view(*self) =~~= target);
            }
        } else {
            self.record_error(line_no, line, AsmError::WordOverflow);
            proof {
                assert(state_view(*self) =~~= target);
            }
        }
    }

    /// Assigns the literal-pool slots their addresses, one word each from
    /// the first free location past every placed word (so a backward ORIG
    /// before END cannot make the pool collide with placed words), and
    /// reserves the pool's words.
    fn flush_literals(&mut self, line_no: usize, line: &str)
        requires
            wf_state(old(self)),
            old(self).literal_addrs@.len() == 0,
        ensures
            wf_state(final(self)),
            grows_from(old(self), final(self)),
            state_view(*final(self)) == flush_pool(state_view(*old(self)), line_no as int),
            final(self).literal_addrs@.len() == final(self).literals@.len(),
            final(self).literals == old(self).literals,
            final(self).entry == old(self).entry,
            final(self).ended == old(self).ended,
            final(self).pending_equs == old(self).pending_equs,
            final(self).symbols == old(self).symbols,
            old(self).literals@.len() == 0 ==> final(self).errors == old(self).errors && final(self).emits == old(self).emits,
    {
        if self.high_water > self.location {
            self.location = self.high_water;
        }
        proof {
            assert(flush_pool_go(state_view(*self), line_no as int) == flush_pool(
                state_view(*old(self)),
                line_no as int,
            ));
        }
        let ghost m0 = state_view(*self);
        let n = self.literals.len();
        let mut k: usize = 0;
        while k < n
            invariant
                0 <= k <= n,
                wf_state(self),
                grows_from(old(self), self),
                flush_pool_go(state_view(*self), line_no as int) == flush_pool_go(
                    m0,
                    line_no as int,
                ),
                n == 0 ==> self.errors == old(self).errors && self.emits == old(self).emits,
                n == self.literals@.len(),
                self.literal_addrs@.len() == k,
                self.literals == old(self).literals,
                self.entry == old(self).entry,
                self.ended == old(self).ended,
                self.pending_equs == old(self).pending_equs,
                self.symbols == old(self).symbols,
            decreases n - k,
        {
            let ghost pre = state_view(*self);
            if self.location < MEMORY_SIZE {
                let addr = self.location;
                self.literal_addrs.push(addr);
                self.emits.push(
                    Emit { addr, line_no, line: line.to_owned(), payload: Payload::LitWord(k) },
                );
                self.location = self.location + 1;
                proof {
                    assert(state_view(*self) =~~= LayoutState {
                        literal_addrs: pre.literal_addrs.push(pre.location),
                        emits: pre.emits.push(
                            crate::model::EmitView {
                                addr: pre.location,
                                line_no: line_no as int,
                                payload: crate::model::PayloadView::LitWord(k as int),
                            },
                        ),
                        location: (pre.location + 1) as u32,
                        ..pre
                    });
                }
            } else {
                self.literal_addrs.push(0);
                self.record_error(line_no, line, AsmError::WordOverflow);
                proof {
                    assert(state_view(*self) =~~= LayoutState {
                        literal_addrs: pre.literal_addrs.push(0),
                        errors: pre.errors.push((line_no as int, ErrClass::Overflow)),
                        ..pre
                    });
                }
            }
            k += 1;
        }
        proof {
            assert(flush_pool_go(state_view(*self), line_no as int) == state_view(*self));
        }
    }

    /// EQU handling: the location symbol, if present, is bound to the
    /// operand's value; an operand that is a future reference or mentions
    /// a not-yet-defined symbol becomes a pending definition instead.
    #[verifier::rlimit(100)]
    #[verifier::spinoff_prover]
    fn do_equ(&mut self, loc: Option<Symbol>, equ: crate::equ::Equ, line_no: usize, line: &str)
        requires
            wf_state(old(self)),
        ensures
            wf_state(final(self)),
            grows_from(old(self), final(self)),
            state_view(*final(self)) == crate::model::equ_line(
                state_view(*old(self)),
                crate::model::loc_view(loc),
                equ.wval@,
                line_no as int,
            ),
            final(self).ended == old(self).ended,
            final(self).literal_addrs == old(self).literal_addrs,
            final(self).literals@.len() >= old(self).literals@.len(),
    {
        match loc {
            Option::None => {},
            Option::Some(sym) => {
                let base = self.intern_wval(equ.wval);
                match base {
                    BaseVal::Literal(k) => {
                        let ghost m1 = state_view(*self);
                        self.pending_equs.push(
                            PendingEqu {
                                name: sym,
                                base: BaseVal::Literal(k),
                                loc: self.location,
                                line_no,
                                line: line.to_owned(),
                            },
                        );
                        proof {
                            let pv = crate::model::PendingView {
                                name: sym@,
                                base: BaseView::Literal(k as int),
                                loc: m1.location,
                                line_no: line_no as int,
                            };
                            assert(pendings_view(self.pending_equs@) =~= m1.pending.push(pv));
                            assert(state_view(*self) == LayoutState {
                                pending: m1.pending.push(pv),
                                ..m1
                            });
                        }
                    },
                    BaseVal::Inner(inner) => {
                        proof {
                            crate::word::lemma_eval_winner_fail(
                                inner@,
                                0,
                                crate::word::zero_word_view(),
                                self.location,
                                self.symbols@,
                            );
                        }
                        match inner.evaluate(self.location, &self.symbols) {
                            Result::Ok(word) => {
                                let ghost m1 = state_view(*self);
                                let v = word_value(&word);
                                match self.symbols.define(sym, v) {
                                    Result::Ok(()) => {
                                        proof {
                                            assert(state_view(*self) == LayoutState {
                                                symbols: m1.symbols.insert(sym@, v),
                                                ..m1
                                            });
                                        }
                                    },
                                    Result::Err(e) => {
                                        self.record_error(line_no, line, e);
                                        proof {
                                            assert(state_view(*self) == def_symbol(
                                                m1,
                                                sym@,
                                                v,
                                                line_no as int,
                                            ));
                                        }
                                    },
                                }
                            },
                            Result::Err(e) => match e {
                                AsmError::UndefinedSymbol(_) => {
                                    let ghost m1 = state_view(*self);
                                    let ghost cs = inner@;
                                    self.pending_equs.push(
                                        PendingEqu {
                                            name: sym,
                                            base: BaseVal::Inner(inner),
                                            loc: self.location,
                                            line_no,
                                            line: line.to_owned(),
                                        },
                                    );
                                    proof {
                                        let pv = crate::model::PendingView {
                                            name: sym@,
                                            base: BaseView::Inner(cs),
                                            loc: m1.location,
                                            line_no: line_no as int,
                                        };
                                        assert(pendings_view(self.pending_equs@)
                                            =~= m1.pending.push(pv));
                                        assert(state_view(*self) == LayoutState {
                                            pending: m1.pending.push(pv),
                                            ..m1
                                        });
                                    }
                                },
                                _ => {
                                    self.record_error(line_no, line, e);
                                },
                            },
                        }
                    },
                }
            },
        }
    }

    /// ORIG handling: the location symbol is bound first, then the
    /// operand sets the location counter.  The operand must be evaluable
    /// on the spot: a future reference (whose slot address is unknown
    /// until END) and an unknown symbol are errors here.
    fn do_orig(&mut self, loc: Option<Symbol>, orig: Orig, line_no: usize, line: &str)
        requires
            wf_state(old(self)),
        ensures
            wf_state(final(self)),
            grows_from(old(self), final(self)),
            state_view(*final(self)) == crate::model::orig_line(
                crate::model::def_loc(
                    state_view(*old(self)),
                    crate::model::loc_view(loc),
                    line_no as int,
                ),
                orig.wval@,
                line_no as int,
            ),
            final(self).ended == old(self).ended,
            final(self).literal_addrs == old(self).literal_addrs,
            final(self).literals@.len() >= old(self).literals@.len(),
    {
        match loc {
            Option::Some(sym) => {
                self.define_loc_here(sym, line_no, line);
            },
            Option::None => {},
        }
        match orig.wval {
            WVal::FutureRef(_) => {
                self.record_error(line_no, line, AsmError::InvalidFutureRef);
            },
            WVal::WValInner(inner) => {
                match inner.evaluate(self.location, &self.symbols) {
                    Result::Ok(word) => {
                        let v = word_value(&word);
                        let neg = matches!(v.sign, Sign::Negative);
                        if (neg && v.magnitude > 0) || v.magnitude > MEMORY_SIZE {
                            self.record_error(line_no, line, AsmError::WordOverflow);
                        } else {
                            self.location = v.magnitude;
                        }
                    },
                    Result::Err(e) => {
                        self.record_error(line_no, line, e);
                    },
                }
            },
        }
    }

    /// CON handling: the location symbol is bound, then one constant word
    /// is reserved.
    fn do_con(&mut self, loc: Option<Symbol>, con: Con, line_no: usize, line: &str)
        requires
            wf_state(old(self)),
        ensures
            wf_state(final(self)),
            grows_from(old(self), final(self)),
            state_view(*final(self)) == crate::model::con_line(
                state_view(*old(self)),
                crate::model::loc_view(loc),
                con.wval@,
                line_no as int,
            ),
            final(self).ended == old(self).ended,
            final(self).literal_addrs == old(self).literal_addrs,
            final(self).literals@.len() >= old(self).literals@.len(),
    {
        match loc {
            Option::Some(sym) => {
                self.define_loc_here(sym, line_no, line);
            },
            Option::None => {},
        }
        let base = self.intern_wval(con.wval);
        self.emit_here(Payload::Con(base), line_no, line);
    }

    /// ALF handling: the location symbol is bound, then the word of five
    /// character codes is reserved.
    fn do_alf(&mut self, loc: Option<Symbol>, alf: Alf, line_no: usize, line: &str)
        requires
            wf_state(old(self)),
            alf.chars@.len() == 5,
            crate::alf::all_mix_chars(alf.chars@),
        ensures
            wf_state(final(self)),
            grows_from(old(self), final(self)),
            state_view(*final(self)) == crate::model::alf_line(
                state_view(*old(self)),
                crate::model::loc_view(loc),
                alf.chars@,
                line_no as int,
            ),
            final(self).ended == old(self).ended,
            final(self).literal_addrs == old(self).literal_addrs,
            final(self).literals@.len() >= old(self).literals@.len(),
    {
        match loc {
            Option::Some(sym) => {
                self.define_loc_here(sym, line_no, line);
            },
            Option::None => {},
        }
        let word = alf.to_word();
        self.emit_here(Payload::Ready(word), line_no, line);
    }

    /// END handling: the location symbol is bound, the entry reference
    /// recorded, the literal pool placed, and the program closed.
    fn do_end(&mut self, loc: Option<Symbol>, end: End, line_no: usize, line: &str)
        requires
            wf_state(old(self)),
            old(self).literal_addrs@.len() == 0,
        ensures
            wf_state(final(self)),
            grows_from(old(self), final(self)),
            state_view(*final(self)) == crate::model::end_line(
                state_view(*old(self)),
                crate::model::loc_view(loc),
                end.wval@,
                line_no as int,
            ),
            final(self).ended,
            final(self).literal_addrs@.len() == final(self).literals@.len(),
    {
        match loc {
            Option::Some(sym) => {
                self.define_loc_here(sym, line_no, line);
            },
            Option::None => {},
        }
        let base = self.intern_wval(end.wval);
        let ghost m2 = state_view(*self);
        let ghost bv = base_view(base);
        self.entry = Some(
            EntryRef { base, loc: self.location, line_no, line: line.to_owned() },
        );
        proof {
            assert(state_view(*self) =~~= LayoutState {
                entry: Some(
                    crate::model::EntryView {
                        base: bv,
                        loc: m2.location,
                        line_no: line_no as int,
                    },
                ),
                ..m2
            });
        }
        self.flush_literals(line_no, line);
        let ghost m4 = state_view(*self);
        self.ended = true;
        proof {
            assert(state_view(*self) =~~= LayoutState { ended: true, ..m4 });
        }
    }

    /// Instruction handling: the location symbol is bound, then one word
    /// is reserved carrying everything resolution needs.
    fn do_instruction(
        &mut self,
        loc: Option<Symbol>,
        inst: crate::instruction::MixInstruction,
        line_no: usize,
        line: &str,
    )
        requires
            wf_state(old(self)),
            inst.operation_code < 64,
        ensures
            wf_state(final(self)),
            grows_from(old(self), final(self)),
            state_view(*final(self)) == crate::model::instr_line(
                state_view(*old(self)),
                crate::model::loc_view(loc),
                inst.operation_code,
                inst.address@,
                line_no as int,
            ),
            final(self).ended == old(self).ended,
            final(self).literal_addrs == old(self).literal_addrs,
            final(self).literals@.len() >= old(self).literals@.len(),
    {
        match loc {
            Option::Some(sym) => {
                self.define_loc_here(sym, line_no, line);
            },
            Option::None => {},
        }
        let base = self.intern_wval(inst.address.address);
        self.emit_here(
            Payload::Instr(
                inst.operation_code,
                inst.address.sign,
                base,
                inst.address.index,
                inst.address.field,
            ),
            line_no,
            line,
        );
    }

    /// Layout-pass handling of one source line: parse it, bind its
    /// location symbol, advance the location counter, and reserve its
    /// word, exactly as the line-step function of the model says.
    pub fn process_line(&mut self, line: &str, line_no: usize)
        requires
            wf_state(old(self)),
            old(self).literal_addrs@.len() == 0,
            !old(self).ended,
        ensures
            wf_state(final(self)),
            grows_from(old(self), final(self)),
            !final(self).ended ==> final(self).literal_addrs@.len() == 0,
            final(self).ended ==> final(self).literal_addrs@.len() == final(self).literals@.len(),
            state_view(*final(self)) == step_line(state_view(*old(self)), line@, line_no as int),
    {
        proof {
            lemma_parse_statement_ranges(line@);
        }
        let stmt = match Statement::from_str(line) {
            Result::Ok(st) => st,
            Result::Err(e) => {
                self.record_error(line_no, line, e);
                return ;
            },
        };
        let Statement { loc, op } = stmt;
        match op {
            Operation::Equ(equ) => self.do_equ(loc, equ, line_no, line),
            Operation::Orig(orig) => self.do_orig(loc, orig, line_no, line),
            Operation::Con(con) => self.do_con(loc, con, line_no, line),
            Operation::Alf(alf) => self.do_alf(loc, alf, line_no, line),
            Operation::End(end) => self.do_end(loc, end, line_no, line),
            Operation::Instruction(inst) => self.do_instruction(loc, inst, line_no, line),
        }
    }


    /// The value a base stands for at location `loc`: the value of its own
    /// word, or the address assigned to its literal slot.
    fn resolve_base(&self, base: &BaseVal, loc: u32) -> (r: Result<MixValue, AsmError>)
        requires
            wf_env(self.symbols@),
            base_ok(base, self.literal_addrs@.len() as int),
            forall|i: int| 0 <= i < self.literal_addrs@.len() ==> #[trigger] self.literal_addrs@[i]
                < MEMORY_SIZE,
        ensures
            r matches Ok(v) ==> wf_value(v),
            base matches BaseVal::Literal(k) ==> r == Ok::<MixValue, AsmError>(
                MixValue { sign: Sign::Positive, magnitude: self.literal_addrs@[k as int] },
            ),
            base matches BaseVal::Inner(inner) ==> match spec_eval_winner(
                inner@,
                loc,
                self.symbols@,
            ) {
                WordResult::Word(wv) => r == Ok::<MixValue, AsmError>(spec_word_value(wv)),
                WordResult::Undefined(n) => r matches Err(e) && (e matches
                    AsmError::UndefinedSymbol(s2) && s2@ == n),
                WordResult::Fail(e0) => r == Err::<MixValue, AsmError>(e0),
            },
    {
        match base {
            BaseVal::Literal(k) => Ok(
                MixValue { sign: Sign::Positive, magnitude: self.literal_addrs[*k] },
            ),
            BaseVal::Inner(inner) => match inner.evaluate(loc, &self.symbols) {
                Result::Ok(word) => Ok(word_value(&word)),
                Result::Err(e) => Err(e),
            },
        }
    }

    /// One pending definition retried against the current table: bound on
    /// success; on a still-unknown symbol it stays pending, or — on the
    /// last sweep — becomes a terminal unresolved-symbol diagnostic.
    #[verifier::rlimit(100)]
    #[verifier::spinoff_prover]
    fn equ_retry(&mut self, p: PendingEqu, last: bool)
        requires
            wf_state(old(self)),
            old(self).literal_addrs@.len() == old(self).literals@.len(),
            base_ok(&p.base, old(self).literals@.len() as int),
        ensures
            wf_state(final(self)),
            state_view(*final(self)) == crate::model::equ_step(
                state_view(*old(self)),
                pending_view(p),
                last,
            ),
            final(self).literals == old(self).literals,
            final(self).literal_addrs == old(self).literal_addrs,
            final(self).emits == old(self).emits,
            final(self).entry == old(self).entry,
            final(self).errors@.len() >= old(self).errors@.len(),
            final(self).ended == old(self).ended,
    {
        let ghost pv = pending_view(p);
        proof {
            match pv.base {
                BaseView::Inner(cs) => {
                    crate::word::lemma_eval_winner_fail(
                        cs,
                        0,
                        crate::word::zero_word_view(),
                        p.loc,
                        self.symbols@,
                    );
                },
                BaseView::Literal(_) => {},
            }
        }
        let outcome = self.resolve_base(&p.base, p.loc);
        match outcome {
            Result::Ok(v) => {
                let ghost m1 = state_view(*self);
                let PendingEqu { name, line_no, line, .. } = p;
                match self.symbols.define(name, v) {
                    Result::Ok(()) => {
                        proof {
                            assert(state_view(*self) == LayoutState {
                                symbols: m1.symbols.insert(pv.name, v),
                                ..m1
                            });
                        }
                    },
                    Result::Err(e) => {
                        self.record_error(line_no, line.as_str(), e);
                        proof {
                            assert(state_view(*self) == def_symbol(m1, pv.name, v, pv.line_no));
                        }
                    },
                }
            },
            Result::Err(e) => match e {
                AsmError::UndefinedSymbol(n2) => {
                    if last {
                        let line_no = p.line_no;
                        self.record_error(
                            line_no,
                            p.line.as_str(),
                            AsmError::UnresolvedSymbol(n2),
                        );
                    } else {
                        let ghost m1 = state_view(*self);
                        self.pending_equs.push(p);
                        proof {
                            assert(pendings_view(self.pending_equs@) =~= m1.pending.push(pv));
                            assert(state_view(*self) == LayoutState {
                                pending: m1.pending.push(pv),
                                ..m1
                            });
                        }
                    }
                },
                _ => {
                    let line_no = p.line_no;
                    self.record_error(line_no, p.line.as_str(), e);
                },
            },
        }
    }

    /// One sweep iteration: the front pending definition is retried.
    #[verifier::rlimit(100)]
    #[verifier::spinoff_prover]
    fn sweep_front(&mut self, pending: &mut Vec<PendingEqu>, last: bool)
        requires
            wf_state(old(self)),
            old(self).literal_addrs@.len() == old(self).literals@.len(),
            old(pending)@.len() > 0,
            forall|i: int|
                0 <= i < old(pending)@.len() ==> base_ok(
                    &(#[trigger] old(pending)@[i]).base,
                    old(self).literals@.len() as int,
                ),
        ensures
            wf_state(final(self)),
            final(self).literal_addrs@.len() == final(self).literals@.len(),
            final(self).literals@.len() == old(self).literals@.len(),
            final(pending)@ == old(pending)@.drop_first(),
            state_view(*final(self)) == crate::model::equ_step(
                state_view(*old(self)),
                pending_view(old(pending)@[0]),
                last,
            ),
            last ==> final(self).pending_equs@.len() == old(self).pending_equs@.len(),
    {
        let p = pending.remove(0);
        proof {
            assert(old(pending)@.drop_first() =~= pending@);
        }
        self.equ_retry(p, last);
        proof {
            if last {
                assert(state_view(*self).pending == state_view(*old(self)).pending);
            }
        }
    }

    /// One sweep over the pending EQU definitions, front first.  With
    /// `last` set, a definition whose operand still mentions an unknown
    /// symbol becomes an `UnresolvedSymbol` diagnostic instead of staying
    /// pending.
    #[verifier::rlimit(100)]
    #[verifier::spinoff_prover]
    fn equ_round(&mut self, last: bool)
        requires
            wf_state(old(self)),
            old(self).literal_addrs@.len() == old(self).literals@.len(),
        ensures
            wf_state(final(self)),
            state_view(*final(self)) == equ_sweep(state_view(*old(self)), last),
            final(self).literal_addrs@.len() == final(self).literals@.len(),
            last ==> final(self).pending_equs@.len() == 0,
    {
        let ghost m_start = state_view(*old(self));
        let mut pending: Vec<PendingEqu> = Vec::new();
        core::mem::swap(&mut pending, &mut self.pending_equs);
        proof {
            assert(pendings_view(self.pending_equs@) =~= Seq::<crate::model::PendingView>::empty());
            assert(state_view(*self) == LayoutState { pending: Seq::empty(), ..m_start });
            assert(pendings_view(pending@) == m_start.pending);
        }
        let ghost target = equ_sweep(m_start, last);
        while pending.len() > 0
            invariant
                wf_state(self),
                self.literal_addrs@.len() == self.literals@.len(),
                forall|i: int|
                    0 <= i < pending@.len() ==> base_ok(
                        &(#[trigger] pending@[i]).base,
                        self.literals@.len() as int,
                    ),
                equ_sweep_go(state_view(*self), pendings_view(pending@), last) == target,
                last ==> self.pending_equs@.len() == 0,
            decreases pending@.len(),
        {
            let ghost m_pre = state_view(*self);
            let ghost todo_pre = pendings_view(pending@);
            proof {
                assert(pending_view(pending@[0]) == todo_pre[0]);
            }
            self.sweep_front(&mut pending, last);
            proof {
                assert(pendings_view(pending@) =~= todo_pre.drop_first());
            }
        }
        proof {
            assert(state_view(*self) == target);
        }
    }

    /// Resolves every pending EQU.  Chains of EQU definitions resolve one
    /// link per sweep, so as many sweeps as definitions always suffice; a
    /// final sweep turns what is still unknown into diagnostics.
    fn resolve_pending_equs(&mut self)
        requires
            wf_state(old(self)),
            old(self).literal_addrs@.len() == old(self).literals@.len(),
        ensures
            wf_state(final(self)),
            state_view(*final(self)) == crate::model::equ_fixpoint(state_view(*old(self))),
            final(self).literal_addrs@.len() == final(self).literals@.len(),
            final(self).pending_equs@.len() == 0,
    {
        let ghost m_start = state_view(*old(self));
        let n = self.pending_equs.len();
        let mut round: usize = 0;
        while round < n
            invariant
                0 <= round <= n,
                wf_state(self),
                self.literal_addrs@.len() == self.literals@.len(),
                state_view(*self) == equ_fixpoint_go(m_start, round as int),
            decreases n - round,
        {
            let ghost m_pre = state_view(*self);
            self.equ_round(false);
            proof {
                crate::model::lemma_fixpoint_step(m_start, round as int);
            }
            round += 1;
        }
        proof {
            assert(n as int == m_start.pending.len());
        }
        self.equ_round(true);
    }

    /// One reserved word resolved against the completed table: appended
    /// to `out` as a word, or recorded as one diagnostic.  A symbol still
    /// unknown here was never defined: `UnresolvedSymbol`.
    #[verifier::rlimit(100)]
    #[verifier::spinoff_prover]
    fn resolve_one(&mut self, e: &Emit, out: &mut Vec<(u32, MachineWord)>)
        requires
            wf_state(old(self)),
            old(self).literal_addrs@.len() == old(self).literals@.len(),
            emit_ok(e, old(self).literals@.len() as int),
            forall|j: int|
                0 <= j < old(out)@.len() ==> (#[trigger] old(out)@[j]).0 < MEMORY_SIZE && wf_word(
                    old(out)@[j].1@,
                ),
        ensures
            wf_state(final(self)),
            final(self).literal_addrs@.len() == final(self).literals@.len(),
            ({
                let step = crate::model::resolve_step(
                    state_view(*old(self)),
                    emit_view(*e),
                    words_view(old(out)@),
                );
                state_view(*final(self)) == step.0 && words_view(final(out)@) == step.1
            }),
            forall|j: int|
                0 <= j < final(out)@.len() ==> (#[trigger] final(out)@[j]).0 < MEMORY_SIZE
                    && wf_word(final(out)@[j].1@),
    {
        let ghost out0 = words_view(out@);
        match &e.payload {
            Payload::Ready(w) => {
                out.push((e.addr, w.duplicate()));
                proof {
                    assert(words_view(out@) =~= out0.push((e.addr, w@)));
                }
            },
            Payload::Con(base) => {
                match base {
                    BaseVal::Literal(k) => {
                        let v = MixValue {
                            sign: Sign::Positive,
                            magnitude: self.literal_addrs[*k],
                        };
                        let w = word_of_value(v);
                        let ghost wv = w@;
                        out.push((e.addr, w));
                        proof {
                            assert(words_view(out@) =~= out0.push((e.addr, wv)));
                        }
                    },
                    BaseVal::Inner(inner) => {
                        proof {
                            crate::word::lemma_eval_winner_fail(
                                inner@,
                                0,
                                crate::word::zero_word_view(),
                                e.addr,
                                self.symbols@,
                            );
                        }
                        match inner.evaluate(e.addr, &self.symbols) {
                            Result::Ok(word) => {
                                let ghost wv = word@;
                                out.push((e.addr, word));
                                proof {
                                    assert(words_view(out@) =~= out0.push((e.addr, wv)));
                                }
                            },
                            Result::Err(err) => {
                                let line_no = e.line_no;
                                let line = e.line.clone();
                                let err2 = match err {
                                    AsmError::UndefinedSymbol(n) => AsmError::UnresolvedSymbol(n),
                                    other => other,
                                };
                                self.record_error(line_no, line.as_str(), err2);
                            },
                        }
                    },
                }
            },
            Payload::LitWord(k) => {
                proof {
                    crate::word::lemma_eval_winner_fail(
                        state_view(*old(self)).literals[*k as int],
                        0,
                        crate::word::zero_word_view(),
                        e.addr,
                        self.symbols@,
                    );
                }
                match self.literals[*k].evaluate(e.addr, &self.symbols) {
                    Result::Ok(word) => {
                        let ghost wv = word@;
                        out.push((e.addr, word));
                        proof {
                            assert(words_view(out@) =~= out0.push((e.addr, wv)));
                        }
                    },
                    Result::Err(err) => {
                        let line_no = e.line_no;
                        let line = e.line.clone();
                        let err2 = match err {
                            AsmError::UndefinedSymbol(n) => AsmError::UnresolvedSymbol(n),
                            other => other,
                        };
                        self.record_error(line_no, line.as_str(), err2);
                    },
                }
            },
            Payload::Instr(op, sign, base, index, field) => {
                proof {
                    match base_view(*base) {
                        BaseView::Inner(cs) => {
                            crate::word::lemma_eval_winner_fail(
                                cs,
                                0,
                                crate::word::zero_word_view(),
                                e.addr,
                                self.symbols@,
                            );
                        },
                        BaseView::Literal(_) => {},
                    }
                }
                let bv = match self.resolve_base(base, e.addr) {
                    Result::Ok(v) => v,
                    Result::Err(err) => {
                        let line_no = e.line_no;
                        let line = e.line.clone();
                        let err2 = match err {
                            AsmError::UndefinedSymbol(n) => AsmError::UnresolvedSymbol(n),
                            other => other,
                        };
                        self.record_error(line_no, line.as_str(), err2);
                        return ;
                    },
                };
                let eff_sign = match (sign, bv.sign) {
                    (Sign::Negative, Sign::Negative) => Sign::Positive,
                    (Sign::Negative, Sign::Positive) => Sign::Negative,
                    (Sign::Positive, s) => s,
                };
                let av = MixValue { sign: eff_sign, magnitude: bv.magnitude };
                let iv = match index.evaluate(e.addr, &self.symbols) {
                    Result::Ok(v) => v,
                    Result::Err(err) => {
                        let line_no = e.line_no;
                        let line = e.line.clone();
                        let err2 = match err {
                            AsmError::UndefinedSymbol(n) => AsmError::UnresolvedSymbol(n),
                            other => other,
                        };
                        self.record_error(line_no, line.as_str(), err2);
                        return ;
                    },
                };
                let ib = (iv.magnitude % 64) as u8;
                let fv = match field.expression.evaluate(e.addr, &self.symbols) {
                    Result::Ok(v) => v,
                    Result::Err(err) => {
                        let line_no = e.line_no;
                        let line = e.line.clone();
                        let err2 = match err {
                            AsmError::UndefinedSymbol(n) => AsmError::UnresolvedSymbol(n),
                            other => other,
                        };
                        self.record_error(line_no, line.as_str(), err2);
                        return ;
                    },
                };
                let fb = match field_byte_val(fv) {
                    Option::Some(b) => b,
                    Option::None => {
                        let line_no = e.line_no;
                        let line = e.line.clone();
                        self.record_error(line_no, line.as_str(), AsmError::InvalidFieldRange);
                        return ;
                    },
                };
                let w = pack_instruction(av, ib, fb, *op);
                let ghost wv = w@;
                out.push((e.addr, w));
                proof {
                    assert(words_view(out@) =~= out0.push((e.addr, wv)));
                }
            },
        }
    }

    /// Resolution of every reserved word, in source order, against the
    /// completed symbol table.
    #[verifier::rlimit(100)]
    #[verifier::spinoff_prover]
    fn resolve_emits(&mut self) -> (out: Vec<(u32, MachineWord)>)
        requires
            wf_state(old(self)),
            old(self).literal_addrs@.len() == old(self).literals@.len(),
        ensures
            wf_state(final(self)),
            final(self).literal_addrs@.len() == final(self).literals@.len(),
            state_view(*final(self)) == resolve_words(state_view(*old(self))).0,
            words_view(out@) == resolve_words(state_view(*old(self))).1,
            forall|i: int|
                0 <= i < out@.len() ==> (#[trigger] out@[i]).0 < MEMORY_SIZE && wf_word(
                    out@[i].1@,
                ),
    {
        let ghost m_start = state_view(*old(self));
        let ghost target = resolve_words(m_start);
        let mut emits: Vec<Emit> = Vec::new();
        core::mem::swap(&mut emits, &mut self.emits);
        proof {
            assert(emits_view(self.emits@) =~= Seq::<crate::model::EmitView>::empty());
            assert(state_view(*self) == LayoutState { emits: Seq::empty(), ..m_start });
            assert(emits_view(emits@) == m_start.emits);
            assert(emits_view(emits@).subrange(0, emits@.len() as int) =~= emits_view(emits@));
        }
        let mut out: Vec<(u32, MachineWord)> = Vec::new();
        proof {
            assert(words_view(out@) =~= Seq::<(u32, crate::word::WordView)>::empty());
        }
        let mut i: usize = 0;
        while i < emits.len()
            invariant
                0 <= i <= emits@.len(),
                wf_state(self),
                self.literal_addrs@.len() == self.literals@.len(),
                forall|j: int|
                    0 <= j < emits@.len() ==> emit_ok(
                        &#[trigger] emits@[j],
                        self.literals@.len() as int,
                    ),
                resolve_go(
                    state_view(*self),
                    emits_view(emits@).subrange(i as int, emits@.len() as int),
                    words_view(out@),
                ) == target,
                forall|j: int|
                    0 <= j < out@.len() ==> (#[trigger] out@[j]).0 < MEMORY_SIZE && wf_word(
                        out@[j].1@,
                    ),
            decreases emits@.len() - i,
        {
            let ghost todo_pre = emits_view(emits@).subrange(i as int, emits@.len() as int);
            let e = &emits[i];
            proof {
                assert(emit_view(emits@[i as int]) == todo_pre[0]);
            }
            self.resolve_one(e, &mut out);
            proof {
                assert(emits_view(emits@).subrange(i + 1 as int, emits@.len() as int)
                    =~= todo_pre.drop_first());
            }
            i += 1;
        }
        proof {
            let rest = emits_view(emits@).subrange(emits@.len() as int, emits@.len() as int);
            assert(resolve_go(state_view(*self), rest, words_view(out@)) == target);
            assert(rest.len() == 0);
            assert(state_view(*self) == target.0);
            assert(words_view(out@) == target.1);
        }
        out
    }

    /// Resolves the entry address from END's operand; a missing END means
    /// entry 0.
    #[verifier::rlimit(100)]
    #[verifier::spinoff_prover]
    fn resolve_entry(&mut self) -> (entry: u32)
        requires
            wf_state(old(self)),
            old(self).literal_addrs@.len() == old(self).literals@.len(),
        ensures
            wf_state(final(self)),
            state_view(*final(self)) == crate::model::entry_value(state_view(*old(self))).0,
            entry == crate::model::entry_value(state_view(*old(self))).1,
            entry < MEMORY_SIZE,
    {
        let mut er_opt: Option<EntryRef> = None;
        core::mem::swap(&mut er_opt, &mut self.entry);
        proof {
            assert(state_view(*self) == LayoutState {
                entry: None,
                ..state_view(*old(self))
            });
        }
        match er_opt {
            Option::None => 0,
            Option::Some(er) => {
                proof {
                    match base_view(er.base) {
                        BaseView::Inner(cs) => {
                            crate::word::lemma_eval_winner_fail(
                                cs,
                                0,
                                crate::word::zero_word_view(),
                                er.loc,
                                self.symbols@,
                            );
                        },
                        BaseView::Literal(_) => {},
                    }
                }
                match self.resolve_base(&er.base, er.loc) {
                    Result::Ok(v) => {
                        let neg = matches!(v.sign, Sign::Negative);
                        if (neg && v.magnitude > 0) || v.magnitude >= MEMORY_SIZE {
                            self.record_error(er.line_no, er.line.as_str(), AsmError::WordOverflow);
                            0
                        } else {
                            v.magnitude
                        }
                    },
                    Result::Err(err) => {
                        let err2 = match err {
                            AsmError::UndefinedSymbol(n) => AsmError::UnresolvedSymbol(n),
                            other => other,
                        };
                        self.record_error(er.line_no, er.line.as_str(), err2);
                        0
                    },
                }
            },
        }
    }
}

/// The resolution passes and the final verdict, from a laid-out state:
/// pending EQU definitions resolved to a fixpoint, every reserved word
/// resolved, the entry address computed; the words are handed out only
/// when no diagnostic was collected, the full diagnostic list otherwise.
#[verifier::rlimit(100)]
#[verifier::spinoff_prover]
fn finish_run(st0: AssemblerState) -> (r: Result<AssembledProgram, Vec<LineError>>)
    requires
        wf_state(&st0),
        st0.literal_addrs@.len() == st0.literals@.len(),
    ensures
        r matches Ok(p) ==> wf_program(&p),
        r matches Err(es) ==> es@.len() >= 1,
        ({
            let m3 = equ_fixpoint(state_view(st0));
            let r4 = resolve_words(m3);
            let r5 = entry_value(r4.0);
            &&& (r is Ok <==> r5.0.errors.len() == 0)
            &&& (r matches Ok(p) ==> words_view(p.words@) == r4.1 && p.entry == r5.1
                && p.symbols@ == r5.0.symbols)
            &&& (r matches Err(es) ==> errors_view(es@) == r5.0.errors)
        }),
{
    let mut st = st0;
    let ghost m3 = equ_fixpoint(state_view(st0));
    st.resolve_pending_equs();
    proof {
        assert(state_view(st) == m3);
    }
    let ghost r4 = resolve_words(m3);
    let words = st.resolve_emits();
    proof {
        assert(state_view(st) == r4.0);
        assert(words_view(words@) == r4.1);
    }
    let ghost r5 = entry_value(r4.0);
    let entry = st.resolve_entry();
    proof {
        assert(state_view(st) == r5.0);
        assert(entry == r5.1);
        assert(errors_view(st.errors@).len() == st.errors@.len());
        assert(errors_view(st.errors@) == r5.0.errors);
        assert(st.symbols@ == r5.0.symbols);
    }
    if st.errors.len() > 0 {
        let AssemblerState { errors, .. } = st;
        Err(errors)
    } else {
        let AssemblerState { symbols, .. } = st;
        Ok(AssembledProgram { words, entry, symbols })
    }
}

/// The layout pass over all lines, literal pool included: afterwards
/// the state is exactly what the model's run function and pool
/// placement say.
#[verifier::rlimit(100)]
#[verifier::spinoff_prover]
fn layout_lines(lines: &Vec<String>) -> (st: AssemblerState)
    ensures
        wf_state(&st),
        st.literal_addrs@.len() == st.literals@.len(),
        ({
            let m1 = run_lines(init_state(), lines_view(lines@), 0);
            state_view(st) == if !m1.ended {
                flush_pool(m1, lines@.len() as int)
            } else {
                m1
            }
        }),
{
    let ghost lv = lines_view(lines@);
    let mut st = AssemblerState::new();
    let mut i: usize = 0;
    while i < lines.len()
        invariant
            0 <= i <= lines@.len(),
            lv == lines_view(lines@),
            wf_state(&st),
            !st.ended ==> st.literal_addrs@.len() == 0,
            st.ended ==> st.literal_addrs@.len() == st.literals@.len(),
            run_lines(state_view(st), lv, i as int) == run_lines(init_state(), lv, 0),
        decreases lines@.len() - i,
    {
        let ghost m_pre = state_view(st);
        proof {
            assert(lv[i as int] == lines@[i as int]@);
        }
        if !st.ended {
            st.process_line(lines[i].as_str(), i + 1);
        }
        proof {
            assert(run_lines(m_pre, lv, i as int) == run_lines(state_view(st), lv, i + 1));
        }
        i += 1;
    }
    proof {
        assert(run_lines(state_view(st), lv, lines@.len() as int) == state_view(st));
        assert(state_view(st) == run_lines(init_state(), lv, 0));
    }
    if !st.ended {
        let n = lines.len();
        st.flush_literals(n, "");
    }
    st
}

/// Assembles a program: the layout pass walks the lines in order — one
/// step of the model's line-step function per line, lines after END
/// ignored — the literal pool is placed past every reserved word, the
/// pending EQU definitions are resolved to a fixpoint, and every
/// reserved word is resolved against the completed symbol table.  The
/// result is exactly what the model's run function says: the full word
/// sequence, entry address and symbol table when the run produced no
/// diagnostic, or the full diagnostic list otherwise — never partial
/// output.  A program without END gets its pool flushed after the last
/// line and entry address 0; an ORIG operand must be evaluable where it
/// stands, so a future reference there is rejected.
#[verifier::rlimit(100)]
#[verifier::spinoff_prover]
pub fn assemble_lines(lines: &Vec<String>) -> (r: Result<AssembledProgram, Vec<LineError>>)
    ensures
        r matches Ok(p) ==> wf_program(&p),
        r matches Err(es) ==> es@.len() >= 1,
        ({
            let a = spec_assemble(lines_view(lines@));
            &&& (r is Ok <==> a.errors.len() == 0)
            &&& (r matches Ok(p) ==> words_view(p.words@) == a.words && p.entry == a.entry
                && p.symbols@ == a.symbols)
            &&& (r matches Err(es) ==> errors_view(es@) == a.errors)
        }),
{
    let st = layout_lines(lines);
    proof {
        let lv = lines_view(lines@);
        let m1 = run_lines(init_state(), lv, 0);
        let m2 = if !m1.ended {
            flush_pool(m1, lines@.len() as int)
        } else {
            m1
        };
        let m3 = equ_fixpoint(m2);
        let r4 = resolve_words(m3);
        let r5 = entry_value(r4.0);
        assert(state_view(st) == m2);
        assert(spec_assemble(lv) == crate::model::SpecAssembly {
            words: r4.1,
            entry: r5.1,
            errors: r5.0.errors,
            symbols: r5.0.symbols,
        });
    }
    finish_run(st)
}

} // verus!
