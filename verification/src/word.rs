use vstd::prelude::*;

use crate::alf::{all_mix_chars, is_mix_char, Alf};
use crate::error::AsmError;
use crate::expression::SpecExpr;
use crate::instruction::Sign;
use crate::value::{
    spec_eval, wf_env, wf_value, EvalResult, MixValue, SymbolTable,
};
use crate::wval::WValInner;

verus! {

/// The mathematical form of a machine word.
#[verifier::ext_equal]
pub struct WordView {
    pub sign: Sign,
    pub bytes: Seq<u8>,
}

/// One MIX machine word: a sign and five bytes, each in [0, 63].
/// Immutable once packed.
#[derive(Debug, PartialEq)]
pub struct MachineWord {
    pub sign: Sign,
    pub bytes: Vec<u8>,
}

impl View for MachineWord {
    type V = WordView;

    open spec fn view(&self) -> WordView {
        WordView { sign: self.sign, bytes: self.bytes@ }
    }
}

pub open spec fn wf_word(w: WordView) -> bool {
    w.bytes.len() == 5 && forall|i: int| 0 <= i < 5 ==> #[trigger] w.bytes[i] < 64
}

pub open spec fn zero_word_view() -> WordView {
    WordView { sign: Sign::Positive, bytes: seq![0u8, 0u8, 0u8, 0u8, 0u8] }
}

/// Powers of the byte base 64.
pub open spec fn pow64(k: int) -> int
    decreases k,
{
    if k <= 0 {
        1
    } else {
        64 * pow64(k - 1)
    }
}

/// Byte `j` (0-based) of a word whose bytes up to `r` (1-based) hold the
/// low-order part of `mag`, big-endian.
pub open spec fn field_byte(mag: int, r: int, j: int) -> u8 {
    ((mag / pow64(r - 1 - j)) % 64) as u8
}

/// Writing a value into the byte range `l..=r` of a word: byte 0 means
/// the sign, so `l == 0` sets the word's sign from the value; the value's
/// low bytes land right-justified in the range, the other bytes stay.
pub open spec fn spec_insert_field(w: WordView, l: int, r: int, v: MixValue) -> WordView {
    let sign = if l == 0 {
        v.sign
    } else {
        w.sign
    };
    let lo = if l == 0 {
        1int
    } else {
        l
    };
    WordView {
        sign,
        bytes: Seq::new(
            5,
            |j: int|
                if lo - 1 <= j && j <= r - 1 {
                    field_byte(v.magnitude as int, r, j)
                } else {
                    w.bytes[j]
                },
        ),
    }
}

fn pow64_exec(k: u32) -> (r: u32)
    requires
        k <= 4,
    ensures
        r == pow64(k as int),
        r >= 1,
{
    proof {
        reveal_with_fuel(pow64, 6);
    }
    if k == 0 {
        1
    } else if k == 1 {
        64
    } else if k == 2 {
        4096
    } else if k == 3 {
        262144
    } else {
        16777216
    }
}

fn extract_byte(mag: u32, shift: u32) -> (b: u8)
    requires
        shift <= 4,
    ensures
        b == ((mag as int / pow64(shift as int)) % 64) as u8,
        b < 64,
{
    let d = pow64_exec(shift);
    ((mag / d) % 64) as u8
}

impl MachineWord {
    /// The all-zero word with positive sign.
    pub fn zero() -> (w: MachineWord)
        ensures
            w@ == zero_word_view(),
            wf_word(w@),
    {
        let mut bytes: Vec<u8> = Vec::new();
        bytes.push(0);
        bytes.push(0);
        bytes.push(0);
        bytes.push(0);
        bytes.push(0);
        let w = MachineWord { sign: Sign::Positive, bytes };
        proof {
            assert(w@.bytes =~= zero_word_view().bytes);
        }
        w
    }

    /// Writes `v` into the byte range `l..=r`, byte 0 meaning the sign.
    pub fn insert_field(&mut self, l: u8, r: u8, v: MixValue)
        requires
            l <= r,
            r <= 5,
            wf_word(old(self)@),
            wf_value(v),
        ensures
            final(self)@ == spec_insert_field(old(self)@, l as int, r as int, v),
            wf_word(final(self)@),
    {
        let lo: u8 = if l == 0 {
            1
        } else {
            l
        };
        let b0 = if lo <= 1 && 1 <= r {
            extract_byte(v.magnitude, (r - 1) as u32)
        } else {
            self.bytes[0]
        };
        let b1 = if lo <= 2 && 2 <= r {
            extract_byte(v.magnitude, (r - 2) as u32)
        } else {
            self.bytes[1]
        };
        let b2 = if lo <= 3 && 3 <= r {
            extract_byte(v.magnitude, (r - 3) as u32)
        } else {
            self.bytes[2]
        };
        let b3 = if lo <= 4 && 4 <= r {
            extract_byte(v.magnitude, (r - 4) as u32)
        } else {
            self.bytes[3]
        };
        let b4 = if lo <= 5 && 5 <= r {
            extract_byte(v.magnitude, (r - 5) as u32)
        } else {
            self.bytes[4]
        };
        if l == 0 {
            self.sign = v.sign;
        }
        let mut bytes: Vec<u8> = Vec::new();
        bytes.push(b0);
        bytes.push(b1);
        bytes.push(b2);
        bytes.push(b3);
        bytes.push(b4);
        self.bytes = bytes;
        proof {
            assert(self@.bytes =~= spec_insert_field(old(self)@, l as int, r as int, v).bytes);
        }
    }
}

/// The signed value a word denotes: its sign and its five bytes read as
/// one base-64 number.
pub open spec fn spec_word_value(w: WordView) -> MixValue {
    MixValue {
        sign: w.sign,
        magnitude: (w.bytes[0] * 0x1000000 + w.bytes[1] * 0x40000 + w.bytes[2] * 0x1000
            + w.bytes[3] * 64 + w.bytes[4]) as u32,
    }
}

/// Reads a word back as a value.
pub fn word_value(w: &MachineWord) -> (v: MixValue)
    requires
        wf_word(w@),
    ensures
        v == spec_word_value(w@),
        wf_value(v),
{
    let m: u32 = (w.bytes[0] as u32) * 0x1000000 + (w.bytes[1] as u32) * 0x40000 + (
    w.bytes[2] as u32) * 0x1000 + (w.bytes[3] as u32) * 64 + (w.bytes[4] as u32);
    MixValue { sign: w.sign, magnitude: m }
}

/// The word that holds just the value `v`: the value written over the
/// whole word, sign included.
pub fn word_of_value(v: MixValue) -> (w: MachineWord)
    requires
        wf_value(v),
    ensures
        w@ == spec_insert_field(zero_word_view(), 0, 5, v),
        wf_word(w@),
{
    let mut w = MachineWord::zero();
    w.insert_field(0, 5, v);
    w
}

impl MachineWord {
    /// A copy of the word.
    pub fn duplicate(&self) -> (w: MachineWord)
        requires
            wf_word(self@),
        ensures
            w@ == self@,
    {
        let mut bytes: Vec<u8> = Vec::new();
        bytes.push(self.bytes[0]);
        bytes.push(self.bytes[1]);
        bytes.push(self.bytes[2]);
        bytes.push(self.bytes[3]);
        bytes.push(self.bytes[4]);
        let w = MachineWord { sign: self.sign, bytes };
        proof {
            assert(w@.bytes =~= self@.bytes);
        }
        w
    }
}

/// The instruction word layout `± A A I F C`: two address bytes, the
/// index byte, the field byte, the operation code, under the address
/// value's sign.
pub open spec fn spec_pack_instruction(
    addr: MixValue,
    index_byte: u8,
    f_byte: u8,
    opcode: u8,
) -> WordView {
    WordView {
        sign: addr.sign,
        bytes: seq![
            ((addr.magnitude as int / 64) % 64) as u8,
            (addr.magnitude as int % 64) as u8,
            index_byte,
            f_byte,
            opcode,
        ],
    }
}

/// Packs one instruction word.
pub fn pack_instruction(addr: MixValue, index_byte: u8, f_byte: u8, opcode: u8) -> (w: MachineWord)
    requires
        index_byte < 64,
        f_byte < 64,
        opcode < 64,
    ensures
        w@ == spec_pack_instruction(addr, index_byte, f_byte, opcode),
        wf_word(w@),
{
    let a1 = ((addr.magnitude / 64) % 64) as u8;
    let a2 = (addr.magnitude % 64) as u8;
    let mut bytes: Vec<u8> = Vec::new();
    bytes.push(a1);
    bytes.push(a2);
    bytes.push(index_byte);
    bytes.push(f_byte);
    bytes.push(opcode);
    let w = MachineWord { sign: addr.sign, bytes };
    proof {
        assert(w@.bytes =~= spec_pack_instruction(addr, index_byte, f_byte, opcode).bytes);
    }
    w
}

/// The byte range a field value denotes: `L = v / 8`, `R = v mod 8`,
/// valid when the value is non-negative and `L <= R <= 5`.
pub open spec fn spec_field_range(v: MixValue) -> Option<(int, int)> {
    if v.sign is Negative && v.magnitude > 0 {
        None
    } else {
        let l = v.magnitude as int / 8;
        let r = v.magnitude as int % 8;
        if l <= r && r <= 5 {
            Some((l, r))
        } else {
            None
        }
    }
}

/// Splits a field value into its byte range.
pub fn field_range_of(v: MixValue) -> (r: Option<(u8, u8)>)
    ensures
        r is Some <==> spec_field_range(v) is Some,
        r matches Some(t) ==> (spec_field_range(v) matches Some(st) && t.0 == st.0 && t.1 == st.1
            && t.0 <= t.1 <= 5),
{
    if matches!(v.sign, Sign::Negative) && v.magnitude > 0 {
        return None;
    }
    let l = v.magnitude / 8;
    let r = v.magnitude % 8;
    if l <= r && r <= 5 {
        Some((l as u8, r as u8))
    } else {
        None
    }
}

/// The field byte of an instruction: the field value itself, which must
/// be a non-negative single byte.
pub open spec fn spec_field_byte_val(v: MixValue) -> Option<u8> {
    if v.sign is Negative && v.magnitude > 0 {
        None
    } else if v.magnitude <= 63 {
        Some(v.magnitude as u8)
    } else {
        None
    }
}

pub fn field_byte_val(v: MixValue) -> (r: Option<u8>)
    ensures
        r == spec_field_byte_val(v),
        r matches Some(b) ==> b < 64,
{
    if matches!(v.sign, Sign::Negative) && v.magnitude > 0 {
        return None;
    }
    if v.magnitude <= 63 {
        Some(v.magnitude as u8)
    } else {
        None
    }
}

/// What evaluating a component list can come to.
pub enum WordResult {
    Word(WordView),
    Undefined(Seq<char>),
    Fail(AsmError),
}

/// Folding the components into a word, starting from component `k` and
/// accumulator `acc`: each component's expression value is written into
/// the byte range its field denotes, in order.
pub open spec fn spec_eval_winner_from(
    comps: Seq<(SpecExpr, SpecExpr)>,
    k: int,
    acc: WordView,
    loc: u32,
    env: Map<Seq<char>, MixValue>,
) -> WordResult
    decreases comps.len() - k,
{
    if k < 0 || k >= comps.len() {
        WordResult::Word(acc)
    } else {
        match spec_eval(comps[k].0, loc, env) {
            EvalResult::Undefined(n) => WordResult::Undefined(n),
            EvalResult::DivZero => WordResult::Fail(AsmError::DivisionByZero),
            EvalResult::Val(v) => match spec_eval(comps[k].1, loc, env) {
                EvalResult::Undefined(n) => WordResult::Undefined(n),
                EvalResult::DivZero => WordResult::Fail(AsmError::DivisionByZero),
                EvalResult::Val(fv) => match spec_field_range(fv) {
                    Option::None => WordResult::Fail(AsmError::InvalidFieldRange),
                    Option::Some(lr) => spec_eval_winner_from(
                        comps,
                        k + 1,
                        spec_insert_field(acc, lr.0, lr.1, v),
                        loc,
                        env,
                    ),
                },
            },
        }
    }
}

/// A failing component-list evaluation fails with division by zero or a
/// bad field range, never any other kind.
pub proof fn lemma_eval_winner_fail(
    comps: Seq<(SpecExpr, SpecExpr)>,
    k: int,
    acc: WordView,
    loc: u32,
    env: Map<Seq<char>, MixValue>,
)
    ensures
        spec_eval_winner_from(comps, k, acc, loc, env) matches WordResult::Fail(e) ==> (e
            == AsmError::DivisionByZero || e == AsmError::InvalidFieldRange),
    decreases comps.len() - k,
{
    if 0 <= k < comps.len() {
        match spec_eval(comps[k].0, loc, env) {
            EvalResult::Val(v) => match spec_eval(comps[k].1, loc, env) {
                EvalResult::Val(fv) => match spec_field_range(fv) {
                    Option::Some(lr) => {
                        lemma_eval_winner_fail(
                            comps,
                            k + 1,
                            spec_insert_field(acc, lr.0, lr.1, v),
                            loc,
                            env,
                        );
                    },
                    Option::None => {},
                },
                _ => {},
            },
            _ => {},
        }
    }
}

/// Evaluating a whole component list from the zero word.
pub open spec fn spec_eval_winner(
    comps: Seq<(SpecExpr, SpecExpr)>,
    loc: u32,
    env: Map<Seq<char>, MixValue>,
) -> WordResult {
    spec_eval_winner_from(comps, 0, zero_word_view(), loc, env)
}

impl WValInner {
    /// Evaluates the component list into one word: a zero word with each
    /// component's value field-inserted in order, later components
    /// overwriting overlapping byte ranges of earlier ones.
    pub fn evaluate(&self, loc: u32, table: &SymbolTable) -> (r: Result<MachineWord, AsmError>)
        requires
            wf_env(table@),
        ensures
            match spec_eval_winner(self@, loc, table@) {
                WordResult::Word(wv) => (r matches Ok(w) && w@ == wv) && wf_word(wv),
                WordResult::Undefined(n) => r matches Err(e) && (e matches
                    AsmError::UndefinedSymbol(s) && s@ == n),
                WordResult::Fail(e0) => r == Err::<MachineWord, AsmError>(e0),
            },
    {
        let mut word = MachineWord::zero();
        let mut k: usize = 0;
        while k < self.components.len()
            invariant
                0 <= k <= self.components@.len(),
                wf_env(table@),
                wf_word(word@),
                self@.len() == self.components@.len(),
                spec_eval_winner(self@, loc, table@) == spec_eval_winner_from(
                    self@,
                    k as int,
                    word@,
                    loc,
                    table@,
                ),
            decreases self.components@.len() - k,
        {
            let comp = &self.components[k];
            proof {
                assert(self@[k as int] == (comp.expression@, comp.field@));
            }
            let v = match comp.expression.evaluate(loc, table) {
                Result::Ok(v) => v,
                Result::Err(e) => {
                    return Err(e);
                },
            };
            let fv = match comp.field.expression.evaluate(loc, table) {
                Result::Ok(v) => v,
                Result::Err(e) => {
                    return Err(e);
                },
            };
            let (l, r) = match field_range_of(fv) {
                Option::Some(t) => t,
                Option::None => {
                    return Err(AsmError::InvalidFieldRange);
                },
            };
            word.insert_field(l, r, v);
            k += 1;
        }
        Ok(word)
    }
}

/// The MIX character code of `c`, following the standard table as far as
/// it maps onto ASCII: blank 0, A-I from 1, J-R from 11, S-Z from 22,
/// digits from 30, then the punctuation set from 40.
pub open spec fn spec_mix_char_code(c: char) -> int {
    if c == ' ' {
        0
    } else if 'A' <= c && c <= 'I' {
        c as int - 'A' as int + 1
    } else if 'J' <= c && c <= 'R' {
        c as int - 'J' as int + 11
    } else if 'S' <= c && c <= 'Z' {
        c as int - 'S' as int + 22
    } else if '0' <= c && c <= '9' {
        c as int - '0' as int + 30
    } else if c == '.' {
        40
    } else if c == ',' {
        41
    } else if c == '(' {
        42
    } else if c == ')' {
        43
    } else if c == '+' {
        44
    } else if c == '-' {
        45
    } else if c == '*' {
        46
    } else if c == '/' {
        47
    } else if c == '=' {
        48
    } else if c == '$' {
        49
    } else if c == '<' {
        50
    } else if c == '>' {
        51
    } else if c == '@' {
        52
    } else if c == ';' {
        53
    } else if c == ':' {
        54
    } else {
        55
    }
}

/// The character code, executable.
pub fn mix_char_code(c: char) -> (r: u8)
    requires
        is_mix_char(c),
    ensures
        r == spec_mix_char_code(c),
        r < 64,
{
    if c == ' ' {
        0
    } else if 'A' <= c && c <= 'I' {
        (c as u32 - 'A' as u32 + 1) as u8
    } else if 'J' <= c && c <= 'R' {
        (c as u32 - 'J' as u32 + 11) as u8
    } else if 'S' <= c && c <= 'Z' {
        (c as u32 - 'S' as u32 + 22) as u8
    } else if '0' <= c && c <= '9' {
        (c as u32 - '0' as u32 + 30) as u8
    } else if c == '.' {
        40
    } else if c == ',' {
        41
    } else if c == '(' {
        42
    } else if c == ')' {
        43
    } else if c == '+' {
        44
    } else if c == '-' {
        45
    } else if c == '*' {
        46
    } else if c == '/' {
        47
    } else if c == '=' {
        48
    } else if c == '$' {
        49
    } else if c == '<' {
        50
    } else if c == '>' {
        51
    } else if c == '@' {
        52
    } else if c == ';' {
        53
    } else if c == ':' {
        54
    } else {
        55
    }
}

/// The word the ALF pseudo-operation emits: positive sign, one character
/// code per byte.
pub open spec fn spec_alf_word(chars: Seq<char>) -> WordView {
    WordView {
        sign: Sign::Positive,
        bytes: Seq::new(5, |i: int| spec_mix_char_code(chars[i]) as u8),
    }
}

impl Alf {
    /// Packs the five characters into one word.
    pub fn to_word(&self) -> (w: MachineWord)
        requires
            self.chars@.len() == 5,
            all_mix_chars(self.chars@),
        ensures
            w@ == spec_alf_word(self.chars@),
            wf_word(w@),
    {
        let mut bytes: Vec<u8> = Vec::new();
        bytes.push(mix_char_code(self.chars[0]));
        bytes.push(mix_char_code(self.chars[1]));
        bytes.push(mix_char_code(self.chars[2]));
        bytes.push(mix_char_code(self.chars[3]));
        bytes.push(mix_char_code(self.chars[4]));
        let w = MachineWord { sign: Sign::Positive, bytes };
        proof {
            assert(w@.bytes =~= spec_alf_word(self.chars@).bytes);
        }
        w
    }
}

} // verus!
