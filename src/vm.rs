//! The execution engine: register file, operand stack, label table and the
//! fetch-execute loop.
use vstd::prelude::*;

use crate::labels::Labels;
use crate::number::{
    float_eq, is_zero, ordering_bits, ordering_to_bits, spec_float_eq, spec_is_zero,
    spec_total_cmp, total_cmp, MINUS_ONE,
};
use crate::stack::{push_result, OperandStack};

verus! {

/// A named register. `OpPtr` is the instruction pointer: instructions may not
/// name it.
#[derive(Clone, Copy, Debug, PartialEq, Eq, Structural)]
pub enum Reg {
    AX,
    BX,
    CX,
    Cmp,
    OpPtr,
}

/// An operand: a literal double (as its bit pattern) or a register, resolved
/// when the instruction runs.
#[derive(Clone, Copy, Debug, PartialEq, Eq, Structural)]
pub enum Value {
    Lit(u64),
    Reg(Reg),
}

/// One instruction.
#[derive(Clone, Debug)]
pub enum Op {
    /// Pushes the value; `StackOverflow` on a full bounded stack.
    Push(Value),
    /// Pops the top of the stack into the register; `EmptyStack` on an empty one.
    Pop(Reg),
    Add(Reg, Value),
    Sub(Reg, Value),
    Mul(Reg, Value),
    /// `ZeroDivisionError` when the value is a zero of either sign.
    Div(Reg, Value),
    Mov(Reg, Value),
    /// Stores -1, 0 or +1 in `cmp` by the total order of the two values.
    Cmp(Value, Value),
    /// Binds the label to this instruction's index when it runs.
    Mark(String),
    /// Resumes after the label's mark; `NoSuchMark` when no mark bound it yet.
    Goto(String),
    /// Jumps as `Goto` when the value equals `cmp`.
    GotoEq(String, Value),
    /// Appends the value, rounded and taken modulo 256, to the output buffer.
    Write(Value),
    /// Takes the oldest code point out of the output buffer into the register
    /// as a number, or stores -1 when the buffer is empty.
    Read(Reg),
}

/// The four arithmetic operations on doubles.
#[derive(Clone, Copy, Debug, PartialEq, Eq, Structural)]
pub enum ArithOp {
    Add,
    Sub,
    Mul,
    Div,
}

/// Floating-point work the engine needs done before the current instruction
/// can finish.
#[derive(Clone, Copy, Debug, PartialEq, Eq, Structural)]
pub enum Request {
    /// The double `lhs op rhs`, answered through `resume`.
    Arith { op: ArithOp, lhs: u64, rhs: u64 },
    /// `value` rounded to the nearest integer, answered through `resume_code`.
    Round { value: u64 },
    /// The double equal to `code`, answered through `resume`.
    FromCode { code: u8 },
}

/// Where the answer to a request goes.
#[derive(Clone, Copy, Debug, PartialEq, Eq, Structural)]
pub enum Awaiting {
    Register(Reg),
    Code,
}

/// How a run stopped without an error.
#[derive(Clone, Copy, Debug, PartialEq, Eq, Structural)]
pub enum Status {
    /// The instruction pointer ran past the loaded code.
    Halted,
    /// The step budget ran out; calling `exec` again goes on.
    Paused,
    /// The current instruction waits for the answer to a request.
    Needs(Request),
}

/// The errors that stop a run.
#[derive(Clone, Copy, Debug, PartialEq, Eq, Structural)]
pub enum ExecutionError {
    EmptyStack,
    StackOverflow,
    ZeroDivisionError,
    NoSuchMark,
}

/// The register file.
#[derive(Clone, Copy, Debug, PartialEq, Eq, Structural)]
pub struct Regs {
    pub ax: u64,
    pub bx: u64,
    pub cx: u64,
    pub cmp: u64,
    pub opptr: usize,
}

impl Value {
    pub open spec fn well_formed(self) -> bool {
        self != Value::Reg(Reg::OpPtr)
    }
}

impl Op {
    /// No operand names the instruction pointer.
    pub open spec fn well_formed(self) -> bool {
        match self {
            Op::Push(v) => v.well_formed(),
            Op::Pop(r) => r != Reg::OpPtr,
            Op::Add(r, v) => r != Reg::OpPtr && v.well_formed(),
            Op::Sub(r, v) => r != Reg::OpPtr && v.well_formed(),
            Op::Mul(r, v) => r != Reg::OpPtr && v.well_formed(),
            Op::Div(r, v) => r != Reg::OpPtr && v.well_formed(),
            Op::Mov(r, v) => r != Reg::OpPtr && v.well_formed(),
            Op::Cmp(a, b) => a.well_formed() && b.well_formed(),
            Op::Mark(_) => true,
            Op::Goto(_) => true,
            Op::GotoEq(_, v) => v.well_formed(),
            Op::Write(v) => v.well_formed(),
            Op::Read(r) => r != Reg::OpPtr,
        }
    }
}

impl Op {
    /// Whether no operand names the instruction pointer.
    pub fn is_well_formed(&self) -> (r: bool)
        ensures
            r == self.well_formed(),
    {
        let named = |v: &Value| -> (b: bool)
            ensures
                b == !v.well_formed(),
            { *v == Value::Reg(Reg::OpPtr) };
        match self {
            Op::Push(v) => !named(v),
            Op::Pop(r) => *r != Reg::OpPtr,
            Op::Add(r, v) => *r != Reg::OpPtr && !named(v),
            Op::Sub(r, v) => *r != Reg::OpPtr && !named(v),
            Op::Mul(r, v) => *r != Reg::OpPtr && !named(v),
            Op::Div(r, v) => *r != Reg::OpPtr && !named(v),
            Op::Mov(r, v) => *r != Reg::OpPtr && !named(v),
            Op::Cmp(a, b) => !named(a) && !named(b),
            Op::Mark(_) => true,
            Op::Goto(_) => true,
            Op::GotoEq(_, v) => !named(v),
            Op::Write(v) => !named(v),
            Op::Read(r) => *r != Reg::OpPtr,
        }
    }
}

impl Regs {
    /// The content of a numeric register.
    pub open spec fn get(self, reg: Reg) -> u64 {
        match reg {
            Reg::AX => self.ax,
            Reg::BX => self.bx,
            Reg::CX => self.cx,
            Reg::Cmp => self.cmp,
            Reg::OpPtr => 0,
        }
    }

    /// The register file with one numeric register overwritten.
    pub open spec fn with(self, reg: Reg, v: u64) -> Regs {
        match reg {
            Reg::AX => Regs { ax: v, ..self },
            Reg::BX => Regs { bx: v, ..self },
            Reg::CX => Regs { cx: v, ..self },
            Reg::Cmp => Regs { cmp: v, ..self },
            Reg::OpPtr => self,
        }
    }

    /// The number an operand stands for.
    pub open spec fn value_of(self, v: Value) -> u64 {
        match v {
            Value::Lit(b) => b,
            Value::Reg(r) => self.get(r),
        }
    }

    /// All registers zero.
    pub fn new() -> (r: Regs)
        ensures
            r == (Regs { ax: 0, bx: 0, cx: 0, cmp: 0, opptr: 0 }),
    {
        Regs { ax: 0, bx: 0, cx: 0, cmp: 0, opptr: 0 }
    }

    /// Reads a numeric register.
    pub fn resolve(&self, reg: Reg) -> (r: u64)
        requires
            reg != Reg::OpPtr,
        ensures
            r == self.get(reg),
    {
        match reg {
            Reg::AX => self.ax,
            Reg::BX => self.bx,
            Reg::CX => self.cx,
            Reg::Cmp => self.cmp,
            Reg::OpPtr => vstd::pervasive::unreached(),
        }
    }

    /// Overwrites a numeric register.
    pub fn assign(&mut self, reg: Reg, v: u64)
        requires
            reg != Reg::OpPtr,
        ensures
            *final(self) == old(self).with(reg, v),
    {
        match reg {
            Reg::AX => self.ax = v,
            Reg::BX => self.bx = v,
            Reg::CX => self.cx = v,
            Reg::Cmp => self.cmp = v,
            Reg::OpPtr => {},
        }
    }

    /// The number an operand stands for now.
    pub fn retrieve_value(&self, v: Value) -> (r: u64)
        requires
            v.well_formed(),
        ensures
            r == self.value_of(v),
    {
        match v {
            Value::Lit(b) => b,
            Value::Reg(reg) => self.resolve(reg),
        }
    }
}

/// The state of an engine as a mathematical value.
pub struct Machine {
    pub code: Seq<Op>,
    pub stack: Seq<u64>,
    pub stack_size: Option<usize>,
    pub marks: Map<Seq<char>, usize>,
    pub regs: Regs,
    pub output: Seq<u8>,
    pub awaiting: Option<Awaiting>,
}

/// What one step yields: `Ok(None)` to go on, `Ok(Some(status))` to stop.
pub type Stepped = Result<Option<Status>, ExecutionError>;

/// The invariant of every engine state.
pub open spec fn machine_wf(s: Machine) -> bool {
    &&& forall|i: int| 0 <= i < s.code.len() ==> (#[trigger] s.code[i]).well_formed()
    &&& forall|k: Seq<char>| #[trigger] s.marks.contains_key(k) ==> s.marks[k] < s.code.len()
    &&& s.regs.opptr <= s.code.len()
    &&& s.code.len() <= usize::MAX
    &&& s.awaiting is Some ==> s.regs.opptr < s.code.len()
    &&& s.awaiting != Some(Awaiting::Register(Reg::OpPtr))
}

/// The state of a freshly made engine.
pub open spec fn initial(stack_size: Option<usize>) -> Machine {
    Machine {
        code: Seq::empty(),
        stack: Seq::empty(),
        stack_size,
        marks: Map::empty(),
        regs: Regs { ax: 0, bx: 0, cx: 0, cmp: 0, opptr: 0 },
        output: Seq::empty(),
        awaiting: None,
    }
}

/// Moves the instruction pointer one instruction on.
pub open spec fn advance(s: Machine) -> Machine {
    Machine { regs: Regs { opptr: (s.regs.opptr + 1) as usize, ..s.regs }, ..s }
}

/// Overwrites a numeric register.
pub open spec fn set_reg(s: Machine, r: Reg, v: u64) -> Machine {
    Machine { regs: s.regs.with(r, v), ..s }
}

/// The current instruction is done: move on to the next.
pub open spec fn go_on(s: Machine) -> (Stepped, Machine) {
    (Ok(None), advance(s))
}

/// Stops at the current instruction to wait for the answer to `req`.
pub open spec fn ask(s: Machine, req: Request, target: Awaiting) -> (Stepped, Machine) {
    (Ok(Some(Status::Needs(req))), Machine { awaiting: Some(target), ..s })
}

/// Jumps to the instruction after the mark `name`, or fails with `NoSuchMark`.
pub open spec fn jump(s: Machine, name: Seq<char>) -> (Stepped, Machine) {
    if s.marks.contains_key(name) {
        go_on(Machine { regs: Regs { opptr: s.marks[name], ..s.regs }, ..s })
    } else {
        (Err(ExecutionError::NoSuchMark), s)
    }
}

/// The request for `reg op v`, whose answer goes back to `reg`.
pub open spec fn ask_arith(s: Machine, op: ArithOp, reg: Reg, v: Value) -> (Stepped, Machine) {
    ask(
        s,
        Request::Arith { op, lhs: s.regs.get(reg), rhs: s.regs.value_of(v) },
        Awaiting::Register(reg),
    )
}

/// One fetch-execute step. An error leaves the state as it was.
pub open spec fn step(s: Machine) -> (Stepped, Machine) {
    let pc = s.regs.opptr;
    if pc >= s.code.len() {
        (Ok(Some(Status::Halted)), s)
    } else {
        match s.code[pc as int] {
            Op::Push(v) => match push_result(s.stack, s.stack_size, s.regs.value_of(v)) {
                Ok(stack) => go_on(Machine { stack, ..s }),
                Err(e) => (Err(e), s),
            },
            Op::Pop(r) => if s.stack.len() == 0 {
                (Err(ExecutionError::EmptyStack), s)
            } else {
                go_on(set_reg(Machine { stack: s.stack.drop_last(), ..s }, r, s.stack.last()))
            },
            Op::Add(r, v) => ask_arith(s, ArithOp::Add, r, v),
            Op::Sub(r, v) => ask_arith(s, ArithOp::Sub, r, v),
            Op::Mul(r, v) => ask_arith(s, ArithOp::Mul, r, v),
            Op::Div(r, v) => if spec_is_zero(s.regs.value_of(v)) {
                (Err(ExecutionError::ZeroDivisionError), s)
            } else {
                ask_arith(s, ArithOp::Div, r, v)
            },
            Op::Mov(r, v) => go_on(set_reg(s, r, s.regs.value_of(v))),
            Op::Cmp(a, b) => go_on(
                set_reg(
                    s,
                    Reg::Cmp,
                    ordering_bits(spec_total_cmp(s.regs.value_of(a), s.regs.value_of(b))),
                ),
            ),
            Op::Mark(name) => go_on(Machine { marks: s.marks.insert(name@, pc), ..s }),
            Op::Goto(name) => jump(s, name@),
            Op::GotoEq(name, v) => if spec_float_eq(s.regs.value_of(v), s.regs.cmp) {
                jump(s, name@)
            } else {
                go_on(s)
            },
            Op::Write(v) => ask(s, Request::Round { value: s.regs.value_of(v) }, Awaiting::Code),
            Op::Read(r) => if s.output.len() == 0 {
                go_on(set_reg(s, r, MINUS_ONE))
            } else {
                ask(
                    Machine { output: s.output.remove(0), ..s },
                    Request::FromCode { code: s.output[0] },
                    Awaiting::Register(r),
                )
            },
        }
    }
}

/// At most `fuel` steps: stops at the end of the code, at an error, at a
/// request, or when the fuel is spent.
pub open spec fn run(s: Machine, fuel: nat) -> (Result<Status, ExecutionError>, Machine)
    decreases fuel,
{
    if fuel == 0 {
        (Ok(Status::Paused), s)
    } else {
        let (r, t) = step(s);
        match r {
            Ok(None) => run(t, (fuel - 1) as nat),
            Ok(Some(status)) => (Ok(status), t),
            Err(e) => (Err(e), t),
        }
    }
}

/// The 8-bit code of a rounded number: its value modulo 256.
pub open spec fn code_of(n: i64) -> u8 {
    (n % 256) as u8
}

/// The state once a number answers the request: it goes to the awaiting
/// register and the instruction is done.
pub open spec fn resumed(s: Machine, answer: u64) -> Machine {
    match s.awaiting {
        Some(Awaiting::Register(r)) => advance(
            Machine { regs: s.regs.with(r, answer), awaiting: None, ..s },
        ),
        _ => s,
    }
}

/// The state once a rounded number answers a `Round` request: its code is
/// appended to the output and the instruction is done.
pub open spec fn resumed_code(s: Machine, rounded: i64) -> Machine {
    advance(Machine { output: s.output.push(code_of(rounded)), awaiting: None, ..s })
}

/// The code point of a rounded number: its value modulo 256, so that `-1`
/// gives 255 and `300` gives 44.
pub fn wrap_code(n: i64) -> (r: u8)
    ensures
        r == code_of(n),
{
    let m: i64 = n % 256;
    let c: i64 = if m < 0 {
        m + 256
    } else {
        m
    };
    c as u8
}

/// The execution engine: loaded code, registers, operand stack, label table
/// and output buffer.
pub struct VM {
    code: Vec<Op>,
    stack: OperandStack,
    marks: Labels,
    regs: Regs,
    output: Vec<u8>,
    awaiting: Option<Awaiting>,
}

impl Default for VM {
    /// An engine with an unbounded stack.
    fn default() -> (r: VM)
        ensures
            r.wf(),
            r@ == initial(None),
    {
        VM::new()
    }
}

impl View for VM {
    type V = Machine;

    closed spec fn view(&self) -> Machine {
        Machine {
            code: self.code@,
            stack: self.stack@,
            stack_size: self.stack.capacity(),
            marks: self.marks@,
            regs: self.regs,
            output: self.output@,
            awaiting: self.awaiting,
        }
    }
}

impl VM {
    pub closed spec fn wf(&self) -> bool {
        machine_wf(self@) && self.marks.wf()
    }

    /// An engine with an unbounded stack.
    pub fn new() -> (r: VM)
        ensures
            r.wf(),
            r@ == initial(None),
    {
        VM {
            code: Vec::new(),
            stack: OperandStack::new(None),
            marks: Labels::new(),
            regs: Regs::new(),
            output: Vec::new(),
            awaiting: None,
        }
    }

    /// An engine whose stack holds at most `stack_size` numbers.
    pub fn with_sized_stack(stack_size: usize) -> (r: VM)
        ensures
            r.wf(),
            r@ == initial(Some(stack_size)),
    {
        VM {
            code: Vec::new(),
            stack: OperandStack::new(Some(stack_size)),
            marks: Labels::new(),
            regs: Regs::new(),
            output: Vec::new(),
            awaiting: None,
        }
    }

    /// Appends instructions to the loaded code.
    pub fn load(&mut self, code: Vec<Op>)
        requires
            old(self).wf(),
            forall|i: int| 0 <= i < code@.len() ==> (#[trigger] code@[i]).well_formed(),
            old(self)@.code.len() + code@.len() <= usize::MAX,
        ensures
            final(self).wf(),
            final(self)@ == (Machine { code: old(self)@.code + code@, ..old(self)@ }),
    {
        let ghost added = code@;
        let mut code = code;
        self.code.append(&mut code);
        assert forall|i: int| 0 <= i < self.code@.len() implies (#[trigger] self.code@[i]).well_formed() by {
            if i >= old(self)@.code.len() {
                assert(self.code@[i] == added[i - old(self)@.code.len()]);
            }
        }
    }

    /// Which answer the engine waits for, if any.
    pub fn awaiting(&self) -> (r: Option<Awaiting>)
        ensures
            r == self@.awaiting,
    {
        self.awaiting
    }

    /// How many instructions are loaded.
    pub fn code_len(&self) -> (r: usize)
        ensures
            r == self@.code.len(),
    {
        self.code.len()
    }

    /// The register file.
    pub fn regs(&self) -> (r: &Regs)
        ensures
            *r == self@.regs,
    {
        &self.regs
    }

    /// The stack, bottom first.
    pub fn stack(&self) -> (r: &Vec<u64>)
        ensures
            r@ == self@.stack,
    {
        self.stack.items()
    }

    /// The output buffer, oldest first.
    pub fn output(&self) -> (r: &Vec<u8>)
        ensures
            r@ == self@.output,
    {
        &self.output
    }

    /// Moves the pointer onto the mark `name`; the step's advance then resumes
    /// just after it.
    fn goto(&mut self, name: &String) -> (r: Result<(), ExecutionError>)
        requires
            old(self).wf(),
        ensures
            final(self).wf(),
            old(self)@.marks.contains_key(name@) ==> r == Ok::<(), ExecutionError>(())
                && final(self)@ == (Machine {
                regs: Regs { opptr: old(self)@.marks[name@], ..old(self)@.regs },
                ..old(self)@
            }),
            !old(self)@.marks.contains_key(name@) ==> r == Err::<(), ExecutionError>(
                ExecutionError::NoSuchMark,
            ) && final(self)@ == old(self)@,
    {
        match self.marks.resolve(name) {
            Ok(i) => {
                self.regs.opptr = i;
                Ok(())
            },
            Err(e) => Err(e),
        }
    }

    /// Executes the instruction at the pointer, or asks for what it needs.
    fn step(&mut self) -> (r: Stepped)
        requires
            old(self).wf(),
            old(self)@.awaiting is None,
        ensures
            final(self).wf(),
            (r, final(self)@) == step(old(self)@),
    {
        let pc = self.regs.opptr;
        if pc >= self.code.len() {
            return Ok(Some(Status::Halted));
        }
        let op = &self.code[pc];
        assert(op.well_formed());
        match op {
            Op::Push(v) => {
                let x = self.regs.retrieve_value(*v);
                match self.stack.push(x) {
                    Ok(()) => {},
                    Err(e) => {
                        return Err(e);
                    },
                }
            },
            Op::Pop(reg) => {
                match self.stack.pop() {
                    Ok(x) => self.regs.assign(*reg, x),
                    Err(e) => {
                        return Err(e);
                    },
                }
            },
            Op::Add(reg, v) => {
                return Ok(Some(self.ask_arith(ArithOp::Add, *reg, *v)));
            },
            Op::Sub(reg, v) => {
                return Ok(Some(self.ask_arith(ArithOp::Sub, *reg, *v)));
            },
            Op::Mul(reg, v) => {
                return Ok(Some(self.ask_arith(ArithOp::Mul, *reg, *v)));
            },
            Op::Div(reg, v) => {
                if is_zero(self.regs.retrieve_value(*v)) {
                    return Err(ExecutionError::ZeroDivisionError);
                }
                return Ok(Some(self.ask_arith(ArithOp::Div, *reg, *v)));
            },
            Op::Mov(reg, v) => {
                let x = self.regs.retrieve_value(*v);
                self.regs.assign(*reg, x);
            },
            Op::Cmp(a, b) => {
                let x = self.regs.retrieve_value(*a);
                let y = self.regs.retrieve_value(*b);
                self.regs.cmp = ordering_to_bits(total_cmp(x, y));
            },
            Op::Mark(name) => {
                let name = name.clone();
                self.marks.bind(&name, pc);
            },
            Op::Goto(name) => {
                let name = name.clone();
                self.goto(&name)?;
            },
            Op::GotoEq(name, v) => {
                let x = self.regs.retrieve_value(*v);
                if float_eq(x, self.regs.cmp) {
                    let name = name.clone();
                    self.goto(&name)?;
                }
            },
            Op::Write(v) => {
                let x = self.regs.retrieve_value(*v);
                self.awaiting = Some(Awaiting::Code);
                return Ok(Some(Status::Needs(Request::Round { value: x })));
            },
            Op::Read(reg) => {
                if self.output.len() == 0 {
                    self.regs.assign(*reg, MINUS_ONE);
                } else {
                    let reg = *reg;
                    let code = self.output.remove(0);
                    self.awaiting = Some(Awaiting::Register(reg));
                    return Ok(Some(Status::Needs(Request::FromCode { code })));
                }
            },
        }
        self.regs.opptr = self.regs.opptr + 1;
        Ok(None)
    }

    /// Runs at most `fuel` instructions from the instruction pointer. It stops
    /// when the pointer passes the end of the code (`Halted`), at the first
    /// error, when an instruction needs floating-point work done (`Needs`; the
    /// answer goes in through `resume` or `resume_code`), or when the fuel is
    /// spent (`Paused`).
    pub fn exec(&mut self, fuel: u64) -> (r: Result<Status, ExecutionError>)
        requires
            old(self).wf(),
            old(self)@.awaiting is None,
        ensures
            final(self).wf(),
            (r, final(self)@) == run(old(self)@, fuel as nat),
    {
        let mut left: u64 = fuel;
        while left > 0
            invariant
                self.wf(),
                self@.awaiting is None,
                run(self@, left as nat) == run(old(self)@, fuel as nat),
            decreases left,
        {
            match self.step() {
                Ok(None) => {},
                Ok(Some(status)) => {
                    return Ok(status);
                },
                Err(e) => {
                    return Err(e);
                },
            }
            left = left - 1;
        }
        Ok(Status::Paused)
    }

    /// Hands in the number an `Arith` or `FromCode` request asked for: it goes
    /// to the awaiting register and the instruction is done.
    pub fn resume(&mut self, answer: u64)
        requires
            old(self).wf(),
            old(self)@.awaiting matches Some(Awaiting::Register(_)),
        ensures
            final(self).wf(),
            final(self)@ == resumed(old(self)@, answer),
    {
        match self.awaiting {
            Some(Awaiting::Register(reg)) => {
                assert(self.regs.opptr < self.code@.len());
                self.regs.assign(reg, answer);
                self.awaiting = None;
                self.regs.opptr = self.regs.opptr + 1;
            },
            _ => {},
        }
    }

    /// Hands in the rounded number a `Round` request asked for: its code
    /// (the number modulo 256) is appended to the output and the instruction
    /// is done.
    pub fn resume_code(&mut self, rounded: i64)
        requires
            old(self).wf(),
            old(self)@.awaiting == Some(Awaiting::Code),
        ensures
            final(self).wf(),
            final(self)@ == resumed_code(old(self)@, rounded),
    {
        assert(self.regs.opptr < self.code@.len());
        let code = wrap_code(rounded);
        self.output.push(code);
        self.awaiting = None;
        self.regs.opptr = self.regs.opptr + 1;
    }

    /// Stops to ask for `reg op v`, whose answer goes back to `reg`.
    fn ask_arith(&mut self, op: ArithOp, reg: Reg, v: Value) -> (r: Status)
        requires
            old(self).wf(),
            old(self)@.awaiting is None,
            old(self)@.regs.opptr < old(self)@.code.len(),
            reg != Reg::OpPtr,
            v.well_formed(),
        ensures
            final(self).wf(),
            (Ok::<Option<Status>, ExecutionError>(Some(r)), final(self)@) == ask_arith(
                old(self)@,
                op,
                reg,
                v,
            ),
    {
        let lhs = self.regs.resolve(reg);
        let rhs = self.regs.retrieve_value(v);
        self.awaiting = Some(Awaiting::Register(reg));
        assert(self@.code == old(self)@.code);
        assert(self@.marks == old(self)@.marks);
        Status::Needs(Request::Arith { op, lhs, rhs })
    }
}

} // verus!
