use exprvm::parser::OpType;
use exprvm::text::DecodeError;
use exprvm::vm::{Op, Reg, Value};

fn decode(line: &str) -> Result<Op, DecodeError> {
    let words: Vec<String> = line.split_whitespace().map(|w| w.to_string()).collect();
    let lits: Vec<Option<u64>> = words
        .iter()
        .map(|w| w.parse::<f64>().ok().map(|x| x.to_bits()))
        .collect();
    Op::decode(&words, &lits)
}

#[test]
fn decodes_push_of_a_number() {
    match decode("push 2.5") {
        Ok(Op::Push(Value::Lit(b))) => assert_eq!(f64::from_bits(b), 2.5),
        other => panic!("{:?}", other),
    }
}

#[test]
fn decodes_register_operands() {
    assert!(matches!(decode("pop bx"), Ok(Op::Pop(Reg::BX))));
    assert!(matches!(
        decode("add ax cx"),
        Ok(Op::Add(Reg::AX, Value::Reg(Reg::CX)))
    ));
    assert!(matches!(
        decode("cmp cmp 1"),
        Ok(Op::Cmp(Value::Reg(Reg::Cmp), Value::Lit(_)))
    ));
    assert!(matches!(decode("read cx"), Ok(Op::Read(Reg::CX))));
    assert!(matches!(decode("write ax"), Ok(Op::Write(Value::Reg(Reg::AX)))));
}

#[test]
fn decodes_each_arithmetic_mnemonic() {
    assert!(matches!(decode("sub ax 1"), Ok(Op::Sub(Reg::AX, Value::Lit(_)))));
    assert!(matches!(decode("mul bx 2"), Ok(Op::Mul(Reg::BX, Value::Lit(_)))));
    assert!(matches!(decode("div cx 3"), Ok(Op::Div(Reg::CX, Value::Lit(_)))));
    assert!(matches!(decode("mov cmp 4"), Ok(Op::Mov(Reg::Cmp, Value::Lit(_)))));
}

#[test]
fn decodes_labels_and_jumps() {
    match decode("loop1:") {
        Ok(Op::Mark(name)) => assert_eq!(name, "loop1"),
        other => panic!("{:?}", other),
    }
    match decode("goto loop1") {
        Ok(Op::Goto(name)) => assert_eq!(name, "loop1"),
        other => panic!("{:?}", other),
    }
    match decode("gotoeq end -1") {
        Ok(Op::GotoEq(name, Value::Lit(b))) => {
            assert_eq!(name, "end");
            assert_eq!(f64::from_bits(b), -1.0);
        }
        other => panic!("{:?}", other),
    }
}

#[test]
fn rejects_bad_lines() {
    assert!(matches!(decode(""), Err(DecodeError::EmptyLine)));
    assert!(matches!(decode("add ax"), Err(DecodeError::WrongArity)));
    assert!(matches!(decode("push 1 2"), Err(DecodeError::WrongArity)));
    assert!(matches!(decode("pop dx"), Err(DecodeError::InvalidRegister)));
    assert!(matches!(decode("pop opi"), Err(DecodeError::InvalidRegister)));
    assert!(matches!(decode("mov 1 ax"), Err(DecodeError::InvalidRegister)));
    assert!(matches!(decode("push x"), Err(DecodeError::InvalidValue)));
    assert!(matches!(decode("cmp ax q"), Err(DecodeError::InvalidValue)));
    assert!(matches!(decode("goto a.b"), Err(DecodeError::InvalidMark)));
    assert!(matches!(decode("lo-op:"), Err(DecodeError::InvalidMark)));
    assert!(matches!(decode("jump x"), Err(DecodeError::UnknownMnemonic)));
    assert!(matches!(decode("loop: x"), Err(DecodeError::UnknownMnemonic)));
}

#[test]
fn reg_names() {
    assert_eq!(Reg::try_from("ax"), Ok(Reg::AX));
    assert_eq!(Reg::try_from("bx"), Ok(Reg::BX));
    assert_eq!(Reg::try_from("cx"), Ok(Reg::CX));
    assert_eq!(Reg::try_from("cmp"), Ok(Reg::Cmp));
    assert_eq!(Reg::try_from("opi"), Ok(Reg::OpPtr));
    assert_eq!(Reg::try_from("AX"), Err(()));
    assert_eq!(Reg::try_from(""), Err(()));
}

#[test]
fn operator_characters() {
    assert_eq!(OpType::try_from('+'), Some(OpType::Add));
    assert_eq!(OpType::try_from('-'), Some(OpType::Sub));
    assert_eq!(OpType::try_from('*'), Some(OpType::Mul));
    assert_eq!(OpType::try_from('/'), Some(OpType::Div));
    assert_eq!(OpType::try_from('('), None);
}
