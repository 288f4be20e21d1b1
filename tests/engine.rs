use exprvm::vm::{ArithOp, Awaiting, ExecutionError, Op, Reg, Request, Status, Value, VM};

fn lit(x: f64) -> Value {
    Value::Lit(x.to_bits())
}

fn num(b: u64) -> f64 {
    f64::from_bits(b)
}

/// Runs the engine to the end, doing the floating-point work it asks for.
fn run(vm: &mut VM) -> Result<(), ExecutionError> {
    loop {
        match vm.exec(10_000)? {
            Status::Halted => return Ok(()),
            Status::Paused => {}
            Status::Needs(Request::Arith { op, lhs, rhs }) => {
                let (a, b) = (num(lhs), num(rhs));
                let r = match op {
                    ArithOp::Add => a + b,
                    ArithOp::Sub => a - b,
                    ArithOp::Mul => a * b,
                    ArithOp::Div => a / b,
                };
                vm.resume(r.to_bits());
            }
            Status::Needs(Request::Round { value }) => vm.resume_code(num(value).round() as i64),
            Status::Needs(Request::FromCode { code }) => vm.resume((code as f64).to_bits()),
        }
    }
}

fn stack_of(vm: &VM) -> Vec<f64> {
    vm.stack().iter().map(|b| num(*b)).collect()
}

#[test]
fn pushes_then_pops_come_back_reversed() {
    let mut vm = VM::new();
    vm.load(vec![
        Op::Push(lit(1.0)),
        Op::Push(lit(2.0)),
        Op::Push(lit(3.0)),
        Op::Pop(Reg::AX),
        Op::Pop(Reg::BX),
        Op::Pop(Reg::CX),
    ]);
    assert!(run(&mut vm).is_ok());
    assert_eq!(num(vm.regs().ax), 3.0);
    assert_eq!(num(vm.regs().bx), 2.0);
    assert_eq!(num(vm.regs().cx), 1.0);
    assert!(vm.stack().is_empty());
}

#[test]
fn pop_on_fresh_engine_is_empty_stack() {
    let mut vm = VM::new();
    vm.load(vec![Op::Pop(Reg::AX)]);
    assert_eq!(run(&mut vm), Err(ExecutionError::EmptyStack));
    assert!(vm.stack().is_empty());
    assert_eq!(vm.regs().opptr, 0);
    assert_eq!(vm.regs().ax, 0);
}

#[test]
fn push_past_capacity_overflows_on_the_next_push_only() {
    let mut vm = VM::with_sized_stack(2);
    vm.load(vec![Op::Push(lit(1.0)), Op::Push(lit(2.0)), Op::Push(lit(3.0))]);
    assert_eq!(run(&mut vm), Err(ExecutionError::StackOverflow));
    assert_eq!(stack_of(&vm), vec![1.0, 2.0]);
    assert_eq!(vm.regs().opptr, 2);
}

#[test]
fn pushes_within_capacity_succeed() {
    let mut vm = VM::with_sized_stack(3);
    vm.load(vec![Op::Push(lit(1.0)), Op::Push(lit(2.0)), Op::Push(lit(3.0))]);
    assert_eq!(run(&mut vm), Ok(()));
    assert_eq!(stack_of(&vm), vec![1.0, 2.0, 3.0]);
}

#[test]
fn zero_capacity_overflows_at_once() {
    let mut vm = VM::with_sized_stack(0);
    vm.load(vec![Op::Push(lit(1.0))]);
    assert_eq!(run(&mut vm), Err(ExecutionError::StackOverflow));
    assert!(vm.stack().is_empty());
}

#[test]
fn div_by_zero_fails_and_keeps_register() {
    let mut vm = VM::new();
    vm.load(vec![Op::Mov(Reg::AX, lit(7.0)), Op::Div(Reg::AX, lit(0.0))]);
    assert_eq!(run(&mut vm), Err(ExecutionError::ZeroDivisionError));
    assert_eq!(num(vm.regs().ax), 7.0);
    assert_eq!(vm.regs().opptr, 1);
}

#[test]
fn div_by_negative_zero_register_fails() {
    let mut vm = VM::new();
    vm.load(vec![
        Op::Mov(Reg::AX, lit(7.0)),
        Op::Mov(Reg::BX, lit(-0.0)),
        Op::Div(Reg::AX, Value::Reg(Reg::BX)),
    ]);
    assert_eq!(run(&mut vm), Err(ExecutionError::ZeroDivisionError));
    assert_eq!(num(vm.regs().ax), 7.0);
}

#[test]
fn division_asks_for_the_quotient() {
    let mut vm = VM::new();
    vm.load(vec![Op::Mov(Reg::AX, lit(7.0)), Op::Div(Reg::AX, lit(2.0))]);
    assert_eq!(
        vm.exec(10),
        Ok(Status::Needs(Request::Arith {
            op: ArithOp::Div,
            lhs: 7.0f64.to_bits(),
            rhs: 2.0f64.to_bits()
        }))
    );
    assert_eq!(vm.awaiting(), Some(Awaiting::Register(Reg::AX)));
    vm.resume(3.5f64.to_bits());
    assert_eq!(vm.awaiting(), None);
    assert_eq!(num(vm.regs().ax), 3.5);
    assert_eq!(vm.exec(10), Ok(Status::Halted));
}

#[test]
fn cmp_three_five_is_minus_one() {
    let mut vm = VM::new();
    vm.load(vec![Op::Cmp(lit(3.0), lit(5.0))]);
    assert_eq!(run(&mut vm), Ok(()));
    assert_eq!(num(vm.regs().cmp), -1.0);
}

#[test]
fn cmp_orders_totally() {
    let cases = [
        (5.0, 3.0, 1.0),
        (4.0, 4.0, 0.0),
        (-0.0, 0.0, -1.0),
        (f64::NAN, f64::INFINITY, 1.0),
        (-f64::NAN, f64::NEG_INFINITY, -1.0),
        (f64::NAN, f64::NAN, 0.0),
        (-2.0, -1.0, -1.0),
    ];
    for (a, b, want) in cases {
        let mut vm = VM::new();
        vm.load(vec![Op::Cmp(lit(a), lit(b))]);
        assert_eq!(run(&mut vm), Ok(()));
        assert_eq!(num(vm.regs().cmp), want, "cmp {} {}", a, b);
    }
}

#[test]
fn goto_eq_branches_only_on_matching_order() {
    for (x, ax_after) in [(-1.0, 2.0), (0.0, 1.0), (1.0, 1.0)] {
        let mut vm = VM::new();
        vm.load(vec![
            Op::Mark("top".to_string()),
            Op::Add(Reg::AX, lit(1.0)),
            Op::Cmp(Value::Reg(Reg::AX), lit(2.0)),
            Op::GotoEq("top".to_string(), lit(x)),
        ]);
        assert_eq!(run(&mut vm), Ok(()));
        assert_eq!(num(vm.regs().ax), ax_after, "gotoeq on {}", x);
    }
}

#[test]
fn goto_eq_never_matches_nan() {
    let mut vm = VM::new();
    vm.load(vec![
        Op::Mark("top".to_string()),
        Op::Mov(Reg::Cmp, lit(f64::NAN)),
        Op::Add(Reg::AX, lit(1.0)),
        Op::GotoEq("top".to_string(), Value::Reg(Reg::Cmp)),
    ]);
    assert_eq!(run(&mut vm), Ok(()));
    assert_eq!(num(vm.regs().ax), 1.0);
}

#[test]
fn forward_goto_fails_with_no_such_mark() {
    let mut vm = VM::new();
    vm.load(vec![Op::Goto("a".to_string()), Op::Mark("a".to_string())]);
    assert_eq!(run(&mut vm), Err(ExecutionError::NoSuchMark));
    assert_eq!(vm.regs().opptr, 0);
    assert!(vm.stack().is_empty());
}

#[test]
fn backward_goto_resolves_after_mark_ran() {
    let mut vm = VM::new();
    vm.load(vec![
        Op::Mark("a".to_string()),
        Op::Add(Reg::AX, lit(1.0)),
        Op::Cmp(Value::Reg(Reg::AX), lit(3.0)),
        Op::GotoEq("a".to_string(), lit(-1.0)),
    ]);
    assert_eq!(run(&mut vm), Ok(()));
    assert_eq!(num(vm.regs().ax), 3.0);
}

#[test]
fn goto_resumes_after_the_mark() {
    let mut vm = VM::new();
    vm.load(vec![
        Op::Mark("a".to_string()),
        Op::Add(Reg::AX, lit(1.0)),
        Op::Cmp(Value::Reg(Reg::AX), lit(2.0)),
        Op::GotoEq("b".to_string(), lit(0.0)),
        Op::Goto("a".to_string()),
        Op::Mark("b".to_string()),
    ]);
    // The jump back to "a" lands on the Add after the mark; on the second pass
    // the jump to "b" is taken before "b" was ever marked.
    assert_eq!(run(&mut vm), Err(ExecutionError::NoSuchMark));
    assert_eq!(num(vm.regs().ax), 2.0);
    assert_eq!(vm.regs().opptr, 3);
}

#[test]
fn end_to_end_two_plus_three() {
    let mut vm = VM::new();
    vm.load(vec![
        Op::Push(lit(2.0)),
        Op::Push(lit(3.0)),
        Op::Pop(Reg::BX),
        Op::Pop(Reg::AX),
        Op::Add(Reg::AX, Value::Reg(Reg::BX)),
        Op::Push(Value::Reg(Reg::AX)),
    ]);
    assert_eq!(run(&mut vm), Ok(()));
    assert_eq!(stack_of(&vm), vec![5.0]);
}

#[test]
fn countdown_loop_ends_at_zero() {
    let mut vm = VM::new();
    vm.load(vec![
        Op::Mov(Reg::CX, lit(5.0)),
        Op::Mark("loop".to_string()),
        Op::Sub(Reg::CX, lit(1.0)),
        Op::Add(Reg::AX, lit(1.0)),
        Op::Cmp(Value::Reg(Reg::CX), lit(0.0)),
        Op::GotoEq("loop".to_string(), lit(1.0)),
    ]);
    assert_eq!(run(&mut vm), Ok(()));
    assert_eq!(num(vm.regs().cx), 0.0);
    assert_eq!(num(vm.regs().ax), 5.0);
}

#[test]
fn writes_append_in_order_and_read_takes_the_oldest() {
    let mut vm = VM::new();
    vm.load(vec![Op::Write(lit(104.0)), Op::Write(lit(101.0))]);
    assert_eq!(run(&mut vm), Ok(()));
    assert_eq!(vm.output().clone(), vec![104u8, 101u8]);
    vm.load(vec![Op::Read(Reg::AX)]);
    assert_eq!(run(&mut vm), Ok(()));
    assert_eq!(num(vm.regs().ax), 104.0);
    assert_eq!(vm.output().clone(), vec![101u8]);
    vm.load(vec![Op::Read(Reg::BX), Op::Read(Reg::CX)]);
    assert_eq!(run(&mut vm), Ok(()));
    assert_eq!(num(vm.regs().bx), 101.0);
    assert_eq!(num(vm.regs().cx), -1.0);
    assert!(vm.output().is_empty());
}

#[test]
fn write_rounds_and_wraps_to_a_byte() {
    let mut vm = VM::new();
    vm.load(vec![
        Op::Write(lit(104.4)),
        Op::Write(lit(104.5)),
        Op::Write(lit(300.0)),
        Op::Write(lit(-1.0)),
        Op::Write(lit(256.0)),
    ]);
    assert_eq!(run(&mut vm), Ok(()));
    assert_eq!(vm.output().clone(), vec![104u8, 105u8, 44u8, 255u8, 0u8]);
}

#[test]
fn write_asks_for_rounding() {
    let mut vm = VM::new();
    vm.load(vec![Op::Write(lit(65.2))]);
    assert_eq!(
        vm.exec(5),
        Ok(Status::Needs(Request::Round { value: 65.2f64.to_bits() }))
    );
    assert_eq!(vm.awaiting(), Some(Awaiting::Code));
    vm.resume_code(-191);
    assert_eq!(vm.output().clone(), vec![65u8]);
    assert_eq!(vm.regs().opptr, 1);
}

#[test]
fn loads_append_and_runs_resume() {
    let mut vm = VM::new();
    vm.load(vec![Op::Push(lit(1.0))]);
    assert_eq!(run(&mut vm), Ok(()));
    vm.load(vec![Op::Push(lit(2.0)), Op::Pop(Reg::AX)]);
    assert_eq!(run(&mut vm), Ok(()));
    assert_eq!(stack_of(&vm), vec![1.0]);
    assert_eq!(num(vm.regs().ax), 2.0);
    assert_eq!(vm.regs().opptr, 3);
}

#[test]
fn exec_pauses_when_fuel_runs_out() {
    let mut vm = VM::new();
    vm.load(vec![Op::Mark("spin".to_string()), Op::Goto("spin".to_string())]);
    assert_eq!(vm.exec(0), Ok(Status::Paused));
    assert_eq!(vm.regs().opptr, 0);
    assert_eq!(vm.exec(7), Ok(Status::Paused));
    assert_eq!(vm.exec(1000), Ok(Status::Paused));
}

#[test]
fn empty_engine_halts_at_once() {
    let mut vm = VM::new();
    assert_eq!(vm.exec(1), Ok(Status::Halted));
    assert_eq!(vm.regs().opptr, 0);
}

#[test]
fn mov_copies_registers() {
    let mut vm = VM::new();
    vm.load(vec![
        Op::Mov(Reg::AX, lit(2.5)),
        Op::Mov(Reg::BX, Value::Reg(Reg::AX)),
        Op::Mul(Reg::BX, lit(4.0)),
    ]);
    assert_eq!(run(&mut vm), Ok(()));
    assert_eq!(num(vm.regs().ax), 2.5);
    assert_eq!(num(vm.regs().bx), 10.0);
}

#[test]
fn default_engine_is_empty() {
    let vm = VM::default();
    assert!(vm.stack().is_empty());
    assert!(vm.output().is_empty());
    assert_eq!(vm.regs().opptr, 0);
    assert_eq!(vm.awaiting(), None);
}

#[test]
fn rebinding_a_label_moves_it() {
    let mut vm = VM::new();
    vm.load(vec![
        Op::Mark("a".to_string()),
        Op::Add(Reg::BX, lit(1.0)),
        Op::Mark("a".to_string()),
        Op::Add(Reg::CX, lit(1.0)),
        Op::Cmp(Value::Reg(Reg::CX), lit(2.0)),
        Op::GotoEq("a".to_string(), lit(-1.0)),
    ]);
    assert_eq!(run(&mut vm), Ok(()));
    assert_eq!(num(vm.regs().bx), 1.0);
    assert_eq!(num(vm.regs().cx), 2.0);
}
