//! Properties of the engine that hold for every input, proved over the
//! machine model.
use vstd::prelude::*;

use crate::number::{ordering_bits, spec_float_eq, spec_is_zero, spec_total_cmp};
use crate::stack::push_result;
use crate::vm::{machine_wf, run, step, ExecutionError, Machine, Op, Reg, Regs, Status, Value};

verus! {

/// Pushing each of `vs` in turn, first to last, onto a stack with capacity `cap`.
pub open spec fn push_all(items: Seq<u64>, cap: Option<usize>, vs: Seq<u64>) -> Result<
    Seq<u64>,
    ExecutionError,
>
    decreases vs.len(),
{
    if vs.len() == 0 {
        Ok(items)
    } else {
        match push_result(items, cap, vs[0]) {
            Ok(next) => push_all(next, cap, vs.drop_first()),
            Err(e) => Err(e),
        }
    }
}

/// Popping `n` times: the values in the order they come off, and what stays.
pub open spec fn pop_all(items: Seq<u64>, n: nat) -> Result<(Seq<u64>, Seq<u64>), ExecutionError>
    decreases n,
{
    if n == 0 {
        Ok((Seq::empty(), items))
    } else if items.len() == 0 {
        Err(ExecutionError::EmptyStack)
    } else {
        match pop_all(items.drop_last(), (n - 1) as nat) {
            Ok((out, rest)) => Ok((seq![items.last()] + out, rest)),
            Err(e) => Err(e),
        }
    }
}

/// Pushes that fit the capacity all succeed and stack the values in order.
pub proof fn lemma_push_all_fits(items: Seq<u64>, cap: Option<usize>, vs: Seq<u64>)
    requires
        cap matches Some(n) ==> items.len() + vs.len() <= n,
    ensures
        push_all(items, cap, vs) == Ok::<Seq<u64>, ExecutionError>(items + vs),
    decreases vs.len(),
{
    if vs.len() > 0 {
        lemma_push_all_fits(items.push(vs[0]), cap, vs.drop_first());
        assert(items.push(vs[0]) + vs.drop_first() =~= items + vs);
    } else {
        assert(items + vs =~= items);
    }
}

/// Popping as many values as were pushed gives them back last first, and
/// leaves the stack as it was.
pub proof fn lemma_pop_all_reverses(items: Seq<u64>, vs: Seq<u64>)
    ensures
        pop_all(items + vs, vs.len()) == Ok::<(Seq<u64>, Seq<u64>), ExecutionError>(
            (vs.reverse(), items),
        ),
    decreases vs.len(),
{
    if vs.len() > 0 {
        let front = vs.drop_last();
        assert((items + vs).drop_last() =~= items + front);
        lemma_pop_all_reverses(items, front);
        assert(seq![vs.last()] + front.reverse() =~= vs.reverse());
    } else {
        assert(items + vs =~= items);
        assert(vs.reverse() =~= Seq::<u64>::empty());
    }
}

/// A run of pushes followed by as many pops hands the values back in the
/// reverse order of the pushes (last in, first out), as long as the pushes
/// fit the stack's capacity.
pub proof fn lemma_lifo(items: Seq<u64>, cap: Option<usize>, vs: Seq<u64>)
    requires
        cap matches Some(n) ==> items.len() + vs.len() <= n,
    ensures
        push_all(items, cap, vs) == Ok::<Seq<u64>, ExecutionError>(items + vs),
        pop_all(items + vs, vs.len()) == Ok::<(Seq<u64>, Seq<u64>), ExecutionError>(
            (vs.reverse(), items),
        ),
{
    lemma_push_all_fits(items, cap, vs);
    lemma_pop_all_reverses(items, vs);
}

/// On the engine, a `Push` followed by a `Pop` into a register leaves the
/// pushed number in the register and the stack as it was, when the stack has
/// room for the push.
pub proof fn lemma_push_then_pop(s: Machine, v: Value, r: Reg)
    requires
        machine_wf(s),
        s.regs.opptr + 1 < s.code.len(),
        current(s) == Op::Push(v),
        s.code[s.regs.opptr + 1] == Op::Pop(r),
        s.stack_size matches Some(n) ==> s.stack.len() < n,
    ensures
        ({
            let (r1, t) = step(s);
            let (r2, u) = step(t);
            &&& r1 == Ok::<Option<Status>, ExecutionError>(None)
            &&& r2 == Ok::<Option<Status>, ExecutionError>(None)
            &&& u.stack == s.stack
            &&& u.regs.get(r) == s.regs.value_of(v)
            &&& u.regs.opptr == s.regs.opptr + 2
        }),
{
    let (r1, t) = step(s);
    assert(t.code[t.regs.opptr as int] == Op::Pop(r));
    assert(t.stack.drop_last() =~= s.stack);
    assert(r != Reg::OpPtr);
}

/// Pushes past the capacity fail with `StackOverflow`.
proof fn lemma_push_all_overflows(items: Seq<u64>, n: usize, vs: Seq<u64>)
    requires
        items.len() <= n,
        items.len() + vs.len() > n,
    ensures
        push_all(items, Some(n), vs) == Err::<Seq<u64>, ExecutionError>(
            ExecutionError::StackOverflow,
        ),
    decreases vs.len(),
{
    if items.len() < n {
        lemma_push_all_overflows(items.push(vs[0]), n, vs.drop_first());
    }
}

/// On an empty stack of capacity `n`, the first `n` pushes succeed and the
/// push after them fails with `StackOverflow`: a sequence of pushes fails
/// exactly when it is longer than `n`.
pub proof fn lemma_capacity(n: usize, vs: Seq<u64>)
    ensures
        vs.len() <= n ==> push_all(Seq::empty(), Some(n), vs) == Ok::<Seq<u64>, ExecutionError>(
            vs,
        ),
        vs.len() > n ==> push_all(Seq::empty(), Some(n), vs.take(n as int)) == Ok::<
            Seq<u64>,
            ExecutionError,
        >(vs.take(n as int)),
        vs.len() > n ==> push_result(vs.take(n as int), Some(n), vs[n as int]) == Err::<
            Seq<u64>,
            ExecutionError,
        >(ExecutionError::StackOverflow),
        vs.len() > n ==> push_all(Seq::empty(), Some(n), vs) == Err::<Seq<u64>, ExecutionError>(
            ExecutionError::StackOverflow,
        ),
{
    if vs.len() <= n {
        lemma_push_all_fits(Seq::empty(), Some(n), vs);
        assert(Seq::<u64>::empty() + vs =~= vs);
    } else {
        lemma_push_all_fits(Seq::empty(), Some(n), vs.take(n as int));
        assert(Seq::<u64>::empty() + vs.take(n as int) =~= vs.take(n as int));
        lemma_push_all_overflows(Seq::empty(), n, vs);
    }
}

/// The instruction at the pointer of a state that has not run off its code.
pub open spec fn current(s: Machine) -> Op {
    s.code[s.regs.opptr as int]
}

/// `Pop` on an empty stack fails with `EmptyStack` and changes nothing: the
/// stack stays empty.
pub proof fn lemma_pop_empty(s: Machine, r: Reg)
    requires
        s.regs.opptr < s.code.len(),
        current(s) == Op::Pop(r),
        s.stack.len() == 0,
    ensures
        step(s) == (Err::<Option<Status>, ExecutionError>(ExecutionError::EmptyStack), s),
{
}

/// `Div` by an operand that is a zero of either sign fails with
/// `ZeroDivisionError` and changes nothing, the target register included.
pub proof fn lemma_div_by_zero(s: Machine, r: Reg, v: Value)
    requires
        s.regs.opptr < s.code.len(),
        current(s) == Op::Div(r, v),
        spec_is_zero(s.regs.value_of(v)),
    ensures
        step(s) == (Err::<Option<Status>, ExecutionError>(
            ExecutionError::ZeroDivisionError,
        ), s),
        step(s).1.regs.get(r) == s.regs.get(r),
{
}

/// `Cmp(a, b)` followed by `GotoEq(name, x)` on a bound label stores -1, 0
/// or +1 by the total order of `a` and `b`, then jumps (to just after the
/// mark) exactly when `x` equals that number, and otherwise goes on to the
/// next instruction.
pub proof fn lemma_cmp_then_goto_eq(s: Machine, a: Value, b: Value, name: String, x: Value)
    requires
        machine_wf(s),
        s.regs.opptr + 1 < s.code.len(),
        current(s) == Op::Cmp(a, b),
        s.code[s.regs.opptr + 1] == Op::GotoEq(name, x),
        s.marks.contains_key(name@),
    ensures
        ({
            let (r1, t) = step(s);
            let order = ordering_bits(spec_total_cmp(s.regs.value_of(a), s.regs.value_of(b)));
            let (r2, u) = step(t);
            &&& r1 == Ok::<Option<Status>, ExecutionError>(None)
            &&& t.regs.cmp == order
            &&& r2 == Ok::<Option<Status>, ExecutionError>(None)
            &&& u.regs.opptr == if spec_float_eq(t.regs.value_of(x), order) {
                s.marks[name@] + 1
            } else {
                s.regs.opptr + 2
            }
        }),
{
    let (r1, t) = step(s);
    assert(t.code[t.regs.opptr as int] == Op::GotoEq(name, x));
}

/// A step never unbinds a label.
pub proof fn lemma_step_keeps_marks(s: Machine, k: Seq<char>)
    requires
        s.marks.contains_key(k),
    ensures
        step(s).1.marks.contains_key(k),
{
}

/// A run never unbinds a label.
pub proof fn lemma_run_keeps_marks(s: Machine, fuel: nat, k: Seq<char>)
    requires
        s.marks.contains_key(k),
    ensures
        run(s, fuel).1.marks.contains_key(k),
    decreases fuel,
{
    if fuel > 0 {
        lemma_step_keeps_marks(s, k);
        lemma_run_keeps_marks(step(s).1, (fuel - 1) as nat, k);
    }
}

/// A `Goto` to a label that no `Mark` has bound yet fails with `NoSuchMark`
/// and changes nothing; once the `Mark` has run, the label is bound to that
/// mark's index in every later state, and a `Goto` to it resumes just after
/// the mark.
pub proof fn lemma_marks_bind_lazily(s: Machine, name: String, later: Machine, fuel: nat)
    requires
        s.regs.opptr < s.code.len(),
    ensures
        current(s) == Op::Goto(name) && !s.marks.contains_key(name@) ==> step(s) == (Err::<
            Option<Status>,
            ExecutionError,
        >(ExecutionError::NoSuchMark), s),
        current(s) == Op::Mark(name) ==> step(s).1.marks.contains_key(name@) && step(s).1.marks[name@]
            == s.regs.opptr,
        current(s) == Op::Mark(name) ==> run(step(s).1, fuel).1.marks.contains_key(name@),
        later.regs.opptr < later.code.len() && current(later) == Op::Goto(name)
            && later.marks.contains_key(name@) ==> step(later) == (Ok::<
            Option<Status>,
            ExecutionError,
        >(None), Machine {
            regs: Regs { opptr: (later.marks[name@] + 1) as usize, ..later.regs },
            ..later
        }),
{
    if current(s) == Op::Mark(name) {
        lemma_run_keeps_marks(step(s).1, fuel, name@);
    }
}

} // verus!
