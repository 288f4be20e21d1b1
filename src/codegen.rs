//! Expression trees and the engine code that computes them.
use vstd::prelude::*;

use crate::parser::OpType;
use crate::vm::{Op, Reg, Value};

verus! {

/// An arithmetic expression; numbers are doubles given by their bit patterns.
#[derive(Debug)]
pub enum Expr {
    Number(u64),
    Binary(OpType, Box<Expr>, Box<Expr>),
}

/// The instruction that combines `ax` with `bx` by an operator.
pub open spec fn combine(op: OpType) -> Op {
    match op {
        OpType::Add => Op::Add(Reg::AX, Value::Reg(Reg::BX)),
        OpType::Sub => Op::Sub(Reg::AX, Value::Reg(Reg::BX)),
        OpType::Mul => Op::Mul(Reg::AX, Value::Reg(Reg::BX)),
        OpType::Div => Op::Div(Reg::AX, Value::Reg(Reg::BX)),
    }
}

/// The code for an expression: a number is pushed; a binary expression is the
/// code of its left side, then of its right side, then a pop of both into `bx`
/// and `ax`, the operator applied to `ax`, and a push of `ax`.
pub open spec fn code_for(e: Expr) -> Seq<Op>
    decreases e,
{
    match e {
        Expr::Number(b) => seq![Op::Push(Value::Lit(b))],
        Expr::Binary(op, lhs, rhs) => code_for(*lhs) + code_for(*rhs) + seq![
            Op::Pop(Reg::BX),
            Op::Pop(Reg::AX),
            combine(op),
            Op::Push(Value::Reg(Reg::AX)),
        ],
    }
}

/// Generated code names no instruction pointer and no label.
pub proof fn lemma_code_well_formed(e: Expr)
    ensures
        forall|i: int| 0 <= i < code_for(e).len() ==> (#[trigger] code_for(e)[i]).well_formed(),
    decreases e,
{
    match e {
        Expr::Number(_) => {},
        Expr::Binary(op, lhs, rhs) => {
            lemma_code_well_formed(*lhs);
            lemma_code_well_formed(*rhs);
            let l = code_for(*lhs);
            let r = code_for(*rhs);
            let tail = seq![
                Op::Pop(Reg::BX),
                Op::Pop(Reg::AX),
                combine(op),
                Op::Push(Value::Reg(Reg::AX)),
            ];
            assert forall|i: int| 0 <= i < code_for(e).len() implies (#[trigger] code_for(e)[i]).well_formed() by {
                if i < l.len() {
                    assert(code_for(e)[i] == l[i]);
                } else if i < l.len() + r.len() {
                    assert(code_for(e)[i] == r[i - l.len()]);
                } else {
                    assert(code_for(e)[i] == tail[i - l.len() - r.len()]);
                }
            }
        },
    }
}

/// The instruction that combines `ax` with `bx` by an operator.
fn combine_op(op: OpType) -> (r: Op)
    ensures
        r == combine(op),
{
    match op {
        OpType::Add => Op::Add(Reg::AX, Value::Reg(Reg::BX)),
        OpType::Sub => Op::Sub(Reg::AX, Value::Reg(Reg::BX)),
        OpType::Mul => Op::Mul(Reg::AX, Value::Reg(Reg::BX)),
        OpType::Div => Op::Div(Reg::AX, Value::Reg(Reg::BX)),
    }
}

/// Compiles an expression to the instructions that leave its value on top
/// of the stack.
pub fn gen(ast: Box<Expr>) -> (r: Vec<Op>)
    ensures
        r@ == code_for(*ast),
        forall|i: int| 0 <= i < r@.len() ==> (#[trigger] r@[i]).well_formed(),
    decreases ast,
{
    proof {
        lemma_code_well_formed(*ast);
    }
    match *ast {
        Expr::Number(b) => {
            let mut res = Vec::new();
            res.push(Op::Push(Value::Lit(b)));
            assert(res@ =~= code_for(*ast));
            res
        },
        Expr::Binary(op, lhs, rhs) => {
            let mut res = gen(lhs);
            let mut right = gen(rhs);
            res.append(&mut right);
            res.push(Op::Pop(Reg::BX));
            res.push(Op::Pop(Reg::AX));
            res.push(combine_op(op));
            res.push(Op::Push(Value::Reg(Reg::AX)));
            assert(res@ =~= code_for(*ast));
            res
        },
    }
}

} // verus!
