use exprvm::codegen::{gen, Expr};
use exprvm::lexer::{lex, LexError, LexErrorValue};
use exprvm::parser::{parse, OpType, ParseError, ParseErrorValue, Token, TokenValue};
use exprvm::vm::{ArithOp, Op, Reg, Request, Status, Value, VM};

fn tok(index: usize, value: TokenValue) -> Token {
    Token { index, value }
}

fn n(x: f64) -> Box<Expr> {
    Box::new(Expr::Number(x.to_bits()))
}

#[test]
fn tokenizes_operators_numbers_and_parentheses() {
    let tokens = parse("+ 12 (* 3.5 .5)").unwrap();
    assert_eq!(
        tokens,
        vec![
            tok(0, TokenValue::Op(OpType::Add)),
            tok(4, TokenValue::Num(2, 4)),
            tok(5, TokenValue::LP),
            tok(6, TokenValue::Op(OpType::Mul)),
            tok(11, TokenValue::Num(8, 11)),
            tok(14, TokenValue::Num(13, 14)),
            tok(14, TokenValue::RP),
        ]
    );
}

#[test]
fn number_at_the_end_is_indexed_by_its_start() {
    assert_eq!(
        parse("-7 42").unwrap(),
        vec![
            tok(0, TokenValue::Op(OpType::Sub)),
            tok(2, TokenValue::Num(1, 2)),
            tok(3, TokenValue::Num(3, 5)),
        ]
    );
    assert_eq!(parse("").unwrap(), vec![]);
    assert_eq!(parse("   ").unwrap(), vec![]);
}

#[test]
fn number_then_operator_gives_two_tokens() {
    assert_eq!(
        parse("1/2").unwrap(),
        vec![
            tok(1, TokenValue::Num(0, 1)),
            tok(1, TokenValue::Op(OpType::Div)),
            tok(2, TokenValue::Num(2, 3)),
        ]
    );
}

#[test]
fn tokenizer_errors() {
    let err = |index, value| Err(ParseError { index, value });
    assert_eq!(parse("1..2"), err(2, ParseErrorValue::MultipleDots));
    assert_eq!(parse("1.2.3"), err(3, ParseErrorValue::MultipleDots));
    assert_eq!(parse(".."), err(1, ParseErrorValue::MultipleDots));
    assert_eq!(parse(". "), err(1, ParseErrorValue::SingleDot));
    assert_eq!(parse("1 ."), err(2, ParseErrorValue::SingleDot));
    assert_eq!(parse("x"), err(0, ParseErrorValue::UnexpectedCharacter));
    assert_eq!(parse("12a"), err(2, ParseErrorValue::UnexpectedCharacter));
}

#[test]
fn generates_code_for_a_binary_expression() {
    let code = gen(Box::new(Expr::Binary(OpType::Add, n(2.0), n(3.0))));
    assert_eq!(code.len(), 6);
    assert!(matches!(code[0], Op::Push(Value::Lit(b)) if b == 2.0f64.to_bits()));
    assert!(matches!(code[1], Op::Push(Value::Lit(b)) if b == 3.0f64.to_bits()));
    assert!(matches!(code[2], Op::Pop(Reg::BX)));
    assert!(matches!(code[3], Op::Pop(Reg::AX)));
    assert!(matches!(code[4], Op::Add(Reg::AX, Value::Reg(Reg::BX))));
    assert!(matches!(code[5], Op::Push(Value::Reg(Reg::AX))));
}

#[test]
fn generated_code_evaluates_nested_expressions() {
    // (- 10 (* 2 3)) = 4
    let ast = Expr::Binary(OpType::Sub, n(10.0), Box::new(Expr::Binary(OpType::Mul, n(2.0), n(3.0))));
    let code = gen(Box::new(ast));
    assert_eq!(code.len(), 11);
    assert!(code.iter().all(|op| op.is_well_formed()));
    let mut vm = VM::new();
    vm.load(code);
    loop {
        match vm.exec(100).unwrap() {
            Status::Halted => break,
            Status::Paused => {}
            Status::Needs(Request::Arith { op, lhs, rhs }) => {
                let (a, b) = (f64::from_bits(lhs), f64::from_bits(rhs));
                let r = match op {
                    ArithOp::Add => a + b,
                    ArithOp::Sub => a - b,
                    ArithOp::Mul => a * b,
                    ArithOp::Div => a / b,
                };
                vm.resume(r.to_bits());
            }
            Status::Needs(other) => panic!("{:?}", other),
        }
    }
    let stack: Vec<f64> = vm.stack().iter().map(|b| f64::from_bits(*b)).collect();
    assert_eq!(stack, vec![4.0]);
}

#[test]
fn well_formedness_rejects_the_instruction_pointer() {
    assert!(!Op::Pop(Reg::OpPtr).is_well_formed());
    assert!(!Op::Push(Value::Reg(Reg::OpPtr)).is_well_formed());
    assert!(!Op::GotoEq("a".to_string(), Value::Reg(Reg::OpPtr)).is_well_formed());
    assert!(Op::Push(Value::Reg(Reg::Cmp)).is_well_formed());
    assert!(Op::Mark("a".to_string()).is_well_formed());
}

/// The expression in prefix form, numbers as integers.
fn show(e: &Expr) -> String {
    match e {
        Expr::Number(b) => format!("{}", f64::from_bits(*b)),
        Expr::Binary(op, l, r) => {
            let o = match op {
                OpType::Add => "+",
                OpType::Sub => "-",
                OpType::Mul => "*",
                OpType::Div => "/",
            };
            format!("({} {} {})", o, show(l), show(r))
        }
    }
}

/// Tokenizes and builds a line, reading its numbers.
fn build(line: &str) -> Result<Option<String>, LexError> {
    let tokens = parse(line).unwrap();
    let numbers = tokens
        .iter()
        .map(|t| match t.value {
            TokenValue::Num(start, end) => line[start..end].parse::<f64>().unwrap().to_bits(),
            _ => 0,
        })
        .collect();
    lex(tokens, numbers).map(|e| e.map(|e| show(&e)))
}

#[test]
fn builds_prefix_expressions() {
    assert_eq!(build("+ 2 3"), Ok(Some("(+ 2 3)".to_string())));
    assert_eq!(build("* (+ 1 2) 3"), Ok(Some("(* (+ 1 2) 3)".to_string())));
    assert_eq!(build("- 10 (* 2 3)"), Ok(Some("(- 10 (* 2 3))".to_string())));
    assert_eq!(build("(/ 1 4)"), Ok(Some("(/ 1 4)".to_string())));
    assert_eq!(build("7"), Ok(Some("7".to_string())));
}

#[test]
fn builds_nothing_from_no_tokens() {
    assert_eq!(build(""), Ok(None));
    assert_eq!(build("()"), Ok(None));
}

#[test]
fn tree_builder_errors() {
    assert_eq!(
        build("(+ 1 2"),
        Err(LexError {
            token: Token { index: 0, value: TokenValue::LP },
            value: LexErrorValue::UnmatchedParenthesis
        })
    );
    assert_eq!(
        build("1 + 2"),
        Err(LexError {
            token: Token { index: 2, value: TokenValue::Op(OpType::Add) },
            value: LexErrorValue::InvalidNumberOfArguments
        })
    );
    assert_eq!(
        build("- 10 * 2 3"),
        Err(LexError {
            token: Token { index: 0, value: TokenValue::Op(OpType::Sub) },
            value: LexErrorValue::InvalidNumberOfArguments
        })
    );
    assert_eq!(
        build("+ 1 2 3"),
        Err(LexError {
            token: Token { index: 0, value: TokenValue::Op(OpType::Add) },
            value: LexErrorValue::InvalidNumberOfArguments
        })
    );
}
