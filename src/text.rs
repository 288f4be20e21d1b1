//! The line-oriented mnemonic encoding of instructions: `mnemonic arg1 [arg2]`
//! or `label:`.
//!
//! A line comes in as its whitespace-separated words, each with the double it
//! reads as, if it reads as one (the caller parses number literals).
use vstd::prelude::*;

use crate::vm::{Op, Reg, Value};

verus! {

/// An instruction with its label as a character sequence.
pub enum Instr {
    Push(Value),
    Pop(Reg),
    Add(Reg, Value),
    Sub(Reg, Value),
    Mul(Reg, Value),
    Div(Reg, Value),
    Mov(Reg, Value),
    Cmp(Value, Value),
    Mark(Seq<char>),
    Goto(Seq<char>),
    GotoEq(Seq<char>, Value),
    Write(Value),
    Read(Reg),
}

impl View for Op {
    type V = Instr;

    open spec fn view(&self) -> Instr {
        match *self {
            Op::Push(v) => Instr::Push(v),
            Op::Pop(r) => Instr::Pop(r),
            Op::Add(r, v) => Instr::Add(r, v),
            Op::Sub(r, v) => Instr::Sub(r, v),
            Op::Mul(r, v) => Instr::Mul(r, v),
            Op::Div(r, v) => Instr::Div(r, v),
            Op::Mov(r, v) => Instr::Mov(r, v),
            Op::Cmp(a, b) => Instr::Cmp(a, b),
            Op::Mark(n) => Instr::Mark(n@),
            Op::Goto(n) => Instr::Goto(n@),
            Op::GotoEq(n, v) => Instr::GotoEq(n@, v),
            Op::Write(v) => Instr::Write(v),
            Op::Read(r) => Instr::Read(r),
        }
    }
}

/// Why a line does not encode an instruction.
#[derive(Clone, Copy, Debug, PartialEq, Eq, Structural)]
pub enum DecodeError {
    /// The line has no words.
    EmptyLine,
    /// The mnemonic takes another number of operands.
    WrongArity,
    /// An operand that should be a register is not `ax`, `bx`, `cx` or `cmp`.
    InvalidRegister,
    /// An operand that should be a value is neither a number nor a register.
    InvalidValue,
    /// A label holds a character that is not alphanumeric.
    InvalidMark,
    /// The first word is no mnemonic, and the line is not a single `label:`.
    UnknownMnemonic,
}

/// Whether a character is alphanumeric, as `char::is_alphanumeric` decides.
pub uninterp spec fn alphanumeric(c: char) -> bool;

/// Relies on `char::is_alphanumeric`: the Unicode Alphabetic or Numeric
/// property, a function of the character alone.
#[verifier::external_body]
fn is_alphanumeric(c: char) -> (r: bool)
    ensures
        r == alphanumeric(c),
{
    c.is_alphanumeric()
}

/// The register a word names, as `Reg::try_from` reads it.
pub open spec fn reg_named(w: Seq<char>) -> Option<Reg> {
    if w == "ax"@ {
        Some(Reg::AX)
    } else if w == "bx"@ {
        Some(Reg::BX)
    } else if w == "cx"@ {
        Some(Reg::CX)
    } else if w == "cmp"@ {
        Some(Reg::Cmp)
    } else if w == "opi"@ {
        Some(Reg::OpPtr)
    } else {
        None
    }
}

/// A register operand: a named register other than the instruction pointer.
pub open spec fn reg_operand(w: Seq<char>) -> Option<Reg> {
    match reg_named(w) {
        Some(r) => if r == Reg::OpPtr {
            None
        } else {
            Some(r)
        },
        None => None,
    }
}

/// A value operand: the number the word reads as, else a register operand.
pub open spec fn value_operand(w: Seq<char>, lit: Option<u64>) -> Option<Value> {
    match lit {
        Some(b) => Some(Value::Lit(b)),
        None => match reg_operand(w) {
            Some(r) => Some(Value::Reg(r)),
            None => None,
        },
    }
}

/// Every character of a label is alphanumeric.
pub open spec fn valid_label(w: Seq<char>) -> bool {
    forall|i: int| 0 <= i < w.len() ==> alphanumeric(#[trigger] w[i])
}

/// The words are a mnemonic with `n` operands.
pub open spec fn arity(ws: Seq<Seq<char>>, n: nat) -> bool {
    ws.len() == n + 1
}

/// `register, value` operands.
pub open spec fn reg_value(ws: Seq<Seq<char>>, lits: Seq<Option<u64>>) -> Result<
    (Reg, Value),
    DecodeError,
> {
    if !arity(ws, 2) {
        Err(DecodeError::WrongArity)
    } else {
        match reg_operand(ws[1]) {
            None => Err(DecodeError::InvalidRegister),
            Some(r) => match value_operand(ws[2], lits[2]) {
                None => Err(DecodeError::InvalidValue),
                Some(v) => Ok((r, v)),
            },
        }
    }
}

/// A single `register` operand.
pub open spec fn one_reg(ws: Seq<Seq<char>>) -> Result<Reg, DecodeError> {
    if !arity(ws, 1) {
        Err(DecodeError::WrongArity)
    } else {
        match reg_operand(ws[1]) {
            None => Err(DecodeError::InvalidRegister),
            Some(r) => Ok(r),
        }
    }
}

/// A single `value` operand.
pub open spec fn one_value(ws: Seq<Seq<char>>, lits: Seq<Option<u64>>) -> Result<
    Value,
    DecodeError,
> {
    if !arity(ws, 1) {
        Err(DecodeError::WrongArity)
    } else {
        match value_operand(ws[1], lits[1]) {
            None => Err(DecodeError::InvalidValue),
            Some(v) => Ok(v),
        }
    }
}

/// What a line decodes to.
pub open spec fn decode_words(ws: Seq<Seq<char>>, lits: Seq<Option<u64>>) -> Result<
    Instr,
    DecodeError,
> {
    if ws.len() == 0 {
        Err(DecodeError::EmptyLine)
    } else {
        let m = ws[0];
        if m == "push"@ {
            match one_value(ws, lits) { Ok(v) => Ok(Instr::Push(v)), Err(e) => Err(e) }
        } else if m == "pop"@ {
            match one_reg(ws) { Ok(r) => Ok(Instr::Pop(r)), Err(e) => Err(e) }
        } else if m == "add"@ {
            match reg_value(ws, lits) { Ok((r, v)) => Ok(Instr::Add(r, v)), Err(e) => Err(e) }
        } else if m == "sub"@ {
            match reg_value(ws, lits) { Ok((r, v)) => Ok(Instr::Sub(r, v)), Err(e) => Err(e) }
        } else if m == "mul"@ {
            match reg_value(ws, lits) { Ok((r, v)) => Ok(Instr::Mul(r, v)), Err(e) => Err(e) }
        } else if m == "div"@ {
            match reg_value(ws, lits) { Ok((r, v)) => Ok(Instr::Div(r, v)), Err(e) => Err(e) }
        } else if m == "mov"@ {
            match reg_value(ws, lits) { Ok((r, v)) => Ok(Instr::Mov(r, v)), Err(e) => Err(e) }
        } else if m == "cmp"@ {
            if !arity(ws, 2) {
                Err(DecodeError::WrongArity)
            } else {
                match (value_operand(ws[1], lits[1]), value_operand(ws[2], lits[2])) {
                    (Some(a), Some(b)) => Ok(Instr::Cmp(a, b)),
                    _ => Err(DecodeError::InvalidValue),
                }
            }
        } else if m == "goto"@ {
            if !arity(ws, 1) {
                Err(DecodeError::WrongArity)
            } else if !valid_label(ws[1]) {
                Err(DecodeError::InvalidMark)
            } else {
                Ok(Instr::Goto(ws[1]))
            }
        } else if m == "gotoeq"@ {
            if !arity(ws, 2) {
                Err(DecodeError::WrongArity)
            } else if !valid_label(ws[1]) {
                Err(DecodeError::InvalidMark)
            } else {
                match value_operand(ws[2], lits[2]) {
                    None => Err(DecodeError::InvalidValue),
                    Some(v) => Ok(Instr::GotoEq(ws[1], v)),
                }
            }
        } else if m == "write"@ {
            match one_value(ws, lits) { Ok(v) => Ok(Instr::Write(v)), Err(e) => Err(e) }
        } else if m == "read"@ {
            match one_reg(ws) { Ok(r) => Ok(Instr::Read(r)), Err(e) => Err(e) }
        } else if ws.len() == 1 && m.len() > 0 && m.last() == ':' {
            if valid_label(m.drop_last()) {
                Ok(Instr::Mark(m.drop_last()))
            } else {
                Err(DecodeError::InvalidMark)
            }
        } else {
            Err(DecodeError::UnknownMnemonic)
        }
    }
}

/// Whether a word is exactly the given text.
fn is_word(w: &str, text: &str) -> (r: bool)
    ensures
        r == (w@ == text@),
{
    let n = w.unicode_len();
    if n != text.unicode_len() {
        return false;
    }
    let mut i: usize = 0;
    while i < n
        invariant
            n == w@.len(),
            n == text@.len(),
            i <= n,
            forall|j: int| 0 <= j < i ==> w@[j] == text@[j],
        decreases n - i,
    {
        if w.get_char(i) != text.get_char(i) {
            return false;
        }
        i = i + 1;
    }
    assert(w@ =~= text@);
    true
}

impl Reg {
    /// The register a word names: `ax`, `bx`, `cx`, `cmp`, or `opi` for the
    /// instruction pointer.
    pub fn try_from(value: &str) -> (r: Result<Reg, ()>)
        ensures
            match reg_named(value@) {
                Some(reg) => r == Ok::<Reg, ()>(reg),
                None => r == Err::<Reg, ()>(()),
            },
    {
        if is_word(value, "ax") {
            Ok(Reg::AX)
        } else if is_word(value, "bx") {
            Ok(Reg::BX)
        } else if is_word(value, "cx") {
            Ok(Reg::CX)
        } else if is_word(value, "cmp") {
            Ok(Reg::Cmp)
        } else if is_word(value, "opi") {
            Ok(Reg::OpPtr)
        } else {
            Err(())
        }
    }
}

/// The register operand a word names.
fn reg_word(w: &String) -> (r: Result<Reg, DecodeError>)
    ensures
        match reg_operand(w@) {
            Some(reg) => r == Ok::<Reg, DecodeError>(reg),
            None => r == Err::<Reg, DecodeError>(DecodeError::InvalidRegister),
        },
{
    match Reg::try_from(w.as_str()) {
        Ok(Reg::OpPtr) => Err(DecodeError::InvalidRegister),
        Ok(reg) => Ok(reg),
        Err(()) => Err(DecodeError::InvalidRegister),
    }
}

/// The value operand a word stands for.
fn value_word(w: &String, lit: Option<u64>) -> (r: Result<Value, DecodeError>)
    ensures
        match value_operand(w@, lit) {
            Some(v) => r == Ok::<Value, DecodeError>(v),
            None => r == Err::<Value, DecodeError>(DecodeError::InvalidValue),
        },
{
    match lit {
        Some(b) => Ok(Value::Lit(b)),
        None => match reg_word(w) {
            Ok(reg) => Ok(Value::Reg(reg)),
            Err(_) => Err(DecodeError::InvalidValue),
        },
    }
}

/// Whether every character of the first `n` of `w` is alphanumeric.
fn label_ok(w: &str, n: usize) -> (r: bool)
    requires
        n <= w@.len(),
    ensures
        r == valid_label(w@.subrange(0, n as int)),
{
    let mut i: usize = 0;
    while i < n
        invariant
            n <= w@.len(),
            i <= n,
            forall|j: int| 0 <= j < i ==> alphanumeric(#[trigger] w@[j]),
        decreases n - i,
    {
        if !is_alphanumeric(w.get_char(i)) {
            assert(!alphanumeric(w@.subrange(0, n as int)[i as int]));
            return false;
        }
        i = i + 1;
    }
    assert forall|j: int| 0 <= j < n implies alphanumeric(#[trigger] w@.subrange(0, n as int)[j]) by {
        assert(w@.subrange(0, n as int)[j] == w@[j]);
    }
    true
}

/// The character sequences of the words.
pub open spec fn word_views(words: Seq<String>) -> Seq<Seq<char>> {
    words.map_values(|w: String| w@)
}

/// A single value operand.
fn decode_one_value(words: &Vec<String>, lits: &Vec<Option<u64>>) -> (r: Result<Value, DecodeError>)
    requires
        words@.len() == lits@.len(),
        words@.len() > 0,
    ensures
        r == one_value(word_views(words@), lits@),
{
    if words.len() != 2 {
        return Err(DecodeError::WrongArity);
    }
    assert(word_views(words@)[1] == words@[1]@);
    value_word(&words[1], lits[1])
}

/// A single register operand.
fn decode_one_reg(words: &Vec<String>) -> (r: Result<Reg, DecodeError>)
    requires
        words@.len() > 0,
    ensures
        r == one_reg(word_views(words@)),
{
    if words.len() != 2 {
        return Err(DecodeError::WrongArity);
    }
    assert(word_views(words@)[1] == words@[1]@);
    reg_word(&words[1])
}

/// A register operand, then a value operand.
fn decode_reg_value(words: &Vec<String>, lits: &Vec<Option<u64>>) -> (r: Result<
    (Reg, Value),
    DecodeError,
>)
    requires
        words@.len() == lits@.len(),
        words@.len() > 0,
    ensures
        r == reg_value(word_views(words@), lits@),
{
    if words.len() != 3 {
        return Err(DecodeError::WrongArity);
    }
    assert(word_views(words@)[1] == words@[1]@);
    assert(word_views(words@)[2] == words@[2]@);
    match reg_word(&words[1]) {
        Ok(reg) => match value_word(&words[2], lits[2]) {
            Ok(v) => Ok((reg, v)),
            Err(e) => Err(e),
        },
        Err(e) => Err(e),
    }
}

/// The jump instructions: `goto label` and `gotoeq label value`.
fn decode_jump(words: &Vec<String>, lits: &Vec<Option<u64>>, conditional: bool) -> (r: Result<
    Op,
    DecodeError,
>)
    requires
        words@.len() == lits@.len(),
        words@.len() > 0,
    ensures
        ({
            let ws = word_views(words@);
            let want = if !arity(ws, if conditional { 2 } else { 1 }) {
                Err(DecodeError::WrongArity)
            } else if !valid_label(ws[1]) {
                Err(DecodeError::InvalidMark)
            } else if !conditional {
                Ok(Instr::Goto(ws[1]))
            } else {
                match value_operand(ws[2], lits@[2]) {
                    None => Err(DecodeError::InvalidValue),
                    Some(v) => Ok(Instr::GotoEq(ws[1], v)),
                }
            };
            &&& r is Ok ==> want == Ok::<Instr, DecodeError>(r->Ok_0@) && r->Ok_0.well_formed()
            &&& r is Err ==> want == Err::<Instr, DecodeError>(r->Err_0)
        }),
{
    let n = words.len();
    if (!conditional && n != 2) || (conditional && n != 3) {
        return Err(DecodeError::WrongArity);
    }
    assert(word_views(words@)[1] == words@[1]@);
    assert(n > 2 ==> word_views(words@)[2] == words@[2]@);
    let name = words[1].as_str();
    let len = name.unicode_len();
    assert(name@.subrange(0, len as int) =~= name@);
    if !label_ok(name, len) {
        return Err(DecodeError::InvalidMark);
    }
    if !conditional {
        Ok(Op::Goto(words[1].clone()))
    } else {
        match value_word(&words[2], lits[2]) {
            Ok(v) => Ok(Op::GotoEq(words[1].clone(), v)),
            Err(e) => Err(e),
        }
    }
}

impl Op {
    /// Decodes one line, given as its words and, for each word, the double
    /// that word reads as (`None` where it is no number).
    pub fn decode(words: &Vec<String>, lits: &Vec<Option<u64>>) -> (r: Result<Op, DecodeError>)
        requires
            words@.len() == lits@.len(),
        ensures
            r is Ok ==> decode_words(word_views(words@), lits@) == Ok::<Instr, DecodeError>(
                r->Ok_0@,
            ) && r->Ok_0.well_formed(),
            r is Err ==> decode_words(word_views(words@), lits@) == Err::<Instr, DecodeError>(
                r->Err_0,
            ),
    {
        proof {
            reveal_strlit("push");
            reveal_strlit("pop");
            reveal_strlit("add");
            reveal_strlit("sub");
            reveal_strlit("mul");
            reveal_strlit("div");
            reveal_strlit("mov");
            reveal_strlit("cmp");
            reveal_strlit("goto");
            reveal_strlit("gotoeq");
            reveal_strlit("write");
            reveal_strlit("read");
        }
        if words.len() == 0 {
            return Err(DecodeError::EmptyLine);
        }
        let m = words[0].as_str();
        assert(word_views(words@)[0] == m@);
        if is_word(m, "push") {
            match decode_one_value(words, lits) {
                Ok(v) => Ok(Op::Push(v)),
                Err(e) => Err(e),
            }
        } else if is_word(m, "pop") {
            match decode_one_reg(words) {
                Ok(reg) => Ok(Op::Pop(reg)),
                Err(e) => Err(e),
            }
        } else if is_word(m, "add") {
            match decode_reg_value(words, lits) {
                Ok((reg, v)) => Ok(Op::Add(reg, v)),
                Err(e) => Err(e),
            }
        } else if is_word(m, "sub") {
            match decode_reg_value(words, lits) {
                Ok((reg, v)) => Ok(Op::Sub(reg, v)),
                Err(e) => Err(e),
            }
        } else if is_word(m, "mul") {
            match decode_reg_value(words, lits) {
                Ok((reg, v)) => Ok(Op::Mul(reg, v)),
                Err(e) => Err(e),
            }
        } else if is_word(m, "div") {
            match decode_reg_value(words, lits) {
                Ok((reg, v)) => Ok(Op::Div(reg, v)),
                Err(e) => Err(e),
            }
        } else if is_word(m, "mov") {
            match decode_reg_value(words, lits) {
                Ok((reg, v)) => Ok(Op::Mov(reg, v)),
                Err(e) => Err(e),
            }
        } else if is_word(m, "cmp") {
            if words.len() != 3 {
                return Err(DecodeError::WrongArity);
            }
            assert(word_views(words@)[1] == words@[1]@);
            assert(word_views(words@)[2] == words@[2]@);
            match (value_word(&words[1], lits[1]), value_word(&words[2], lits[2])) {
                (Ok(a), Ok(b)) => Ok(Op::Cmp(a, b)),
                _ => Err(DecodeError::InvalidValue),
            }
        } else if is_word(m, "goto") {
            decode_jump(words, lits, false)
        } else if is_word(m, "gotoeq") {
            decode_jump(words, lits, true)
        } else if is_word(m, "write") {
            match decode_one_value(words, lits) {
                Ok(v) => Ok(Op::Write(v)),
                Err(e) => Err(e),
            }
        } else if is_word(m, "read") {
            match decode_one_reg(words) {
                Ok(reg) => Ok(Op::Read(reg)),
                Err(e) => Err(e),
            }
        } else {
            let len = m.unicode_len();
            if words.len() == 1 && len > 0 && m.get_char(len - 1) == ':' {
                assert(m@.drop_last() =~= m@.subrange(0, len - 1));
                if label_ok(m, len - 1) {
                    let name = m.substring_char(0, len - 1);
                    Ok(Op::Mark(name.to_owned()))
                } else {
                    Err(DecodeError::InvalidMark)
                }
            } else {
                Err(DecodeError::UnknownMnemonic)
            }
        }
    }
}

} // verus!
