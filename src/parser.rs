//! The tokenizer of arithmetic expressions.
use vstd::prelude::*;

verus! {

/// A binary arithmetic operator.
#[derive(Clone, Copy, Debug, PartialEq, Eq, Structural)]
pub enum OpType {
    Add,
    Sub,
    Mul,
    Div,
}

/// The operator a character stands for.
pub open spec fn op_type_of(c: char) -> Option<OpType> {
    if c == '+' {
        Some(OpType::Add)
    } else if c == '-' {
        Some(OpType::Sub)
    } else if c == '*' {
        Some(OpType::Mul)
    } else if c == '/' {
        Some(OpType::Div)
    } else {
        None
    }
}

impl OpType {
    /// The operator `+`, `-`, `*` or `/` a character stands for.
    pub fn try_from(value: char) -> (r: Option<OpType>)
        ensures
            r == op_type_of(value),
    {
        match value {
            '+' => Some(OpType::Add),
            '-' => Some(OpType::Sub),
            '*' => Some(OpType::Mul),
            '/' => Some(OpType::Div),
            _ => None,
        }
    }
}

/// A token and the index of the character where it was recognised.
#[derive(Clone, Copy, Debug, PartialEq, Eq, Structural)]
pub struct Token {
    pub index: usize,
    pub value: TokenValue,
}

/// The kinds of token.
#[derive(Clone, Copy, Debug, PartialEq, Eq, Structural)]
pub enum TokenValue {
    LP,
    RP,
    Op(OpType),
    /// A number whose text is the characters `start..end` of the input
    /// (digits with at most one dot).
    Num(usize, usize),
}

/// Where and why the input is not a token sequence.
#[derive(Clone, Copy, Debug, PartialEq, Eq, Structural)]
pub struct ParseError {
    pub index: usize,
    pub value: ParseErrorValue,
}

/// Why the input is not a token sequence.
#[derive(Clone, Copy, Debug, PartialEq, Eq, Structural)]
pub enum ParseErrorValue {
    UnexpectedCharacter,
    SingleDot,
    MultipleDots,
}

/// What the tokenizer is in the middle of.
#[derive(Clone, Copy, Debug, PartialEq, Eq, Structural)]
pub enum State {
    Empty,
    /// A dot with no digit before it.
    LeadingDot,
    /// A number that started at `start`; `dotted` once it holds a dot.
    Number { start: usize, dotted: bool },
}

pub open spec fn is_digit(c: char) -> bool {
    '0' <= c <= '9'
}

pub open spec fn token(index: int, value: TokenValue) -> Token {
    Token { index: index as usize, value }
}

pub open spec fn fail(index: int, value: ParseErrorValue) -> Result<
    (State, Seq<Token>),
    ParseError,
> {
    Err(ParseError { index: index as usize, value })
}

/// One character `c` at index `i`, read in state `st` after `toks`.
pub open spec fn feed(st: State, toks: Seq<Token>, i: int, c: char) -> Result<
    (State, Seq<Token>),
    ParseError,
> {
    match st {
        State::Empty => if op_type_of(c) is Some {
            Ok((State::Empty, toks.push(token(i, TokenValue::Op(op_type_of(c)->0)))))
        } else if is_digit(c) {
            Ok((State::Number { start: i as usize, dotted: false }, toks))
        } else if c == '.' {
            Ok((State::LeadingDot, toks))
        } else if c == '(' {
            Ok((State::Empty, toks.push(token(i, TokenValue::LP))))
        } else if c == ')' {
            Ok((State::Empty, toks.push(token(i, TokenValue::RP))))
        } else if c == ' ' {
            Ok((State::Empty, toks))
        } else {
            fail(i, ParseErrorValue::UnexpectedCharacter)
        },
        State::Number { start, dotted } => {
            let num = token(i, TokenValue::Num(start, i as usize));
            if op_type_of(c) is Some {
                Ok((State::Empty, toks.push(num).push(token(i, TokenValue::Op(op_type_of(c)->0)))))
            } else if is_digit(c) {
                Ok((st, toks))
            } else if c == '.' {
                if dotted {
                    fail(i, ParseErrorValue::MultipleDots)
                } else {
                    Ok((State::Number { start, dotted: true }, toks))
                }
            } else if c == '(' {
                Ok((State::Empty, toks.push(num).push(token(i, TokenValue::LP))))
            } else if c == ')' {
                Ok((State::Empty, toks.push(num).push(token(i, TokenValue::RP))))
            } else if c == ' ' {
                Ok((State::Empty, toks.push(num)))
            } else {
                fail(i, ParseErrorValue::UnexpectedCharacter)
            }
        },
        State::LeadingDot => if is_digit(c) {
            Ok((State::Number { start: i as usize, dotted: false }, toks))
        } else if c == '.' {
            fail(i, ParseErrorValue::MultipleDots)
        } else {
            fail(i, ParseErrorValue::SingleDot)
        },
    }
}

/// The state and tokens after the first `n` characters.
pub open spec fn scan(cs: Seq<char>, n: nat) -> Result<(State, Seq<Token>), ParseError>
    decreases n,
{
    if n == 0 {
        Ok((State::Empty, Seq::empty()))
    } else {
        match scan(cs, (n - 1) as nat) {
            Ok((st, toks)) => feed(st, toks, n - 1, cs[n - 1]),
            Err(e) => Err(e),
        }
    }
}

/// Once a prefix fails, every longer prefix fails the same way.
proof fn lemma_scan_stays_failed(cs: Seq<char>, k: nat, n: nat, e: ParseError)
    requires
        k <= n,
        scan(cs, k) == Err::<(State, Seq<Token>), ParseError>(e),
    ensures
        scan(cs, n) == Err::<(State, Seq<Token>), ParseError>(e),
    decreases n - k,
{
    if k < n {
        lemma_scan_stays_failed(cs, k + 1, n, e);
    }
}

/// The tokens of a whole input: a number still open at the end becomes a
/// token at its first digit; a dot still open at the end is an error at the
/// last character.
pub open spec fn tokenize(cs: Seq<char>) -> Result<Seq<Token>, ParseError> {
    match scan(cs, cs.len()) {
        Ok((State::Empty, toks)) => Ok(toks),
        Ok((State::LeadingDot, _)) => Err(
            ParseError { index: (cs.len() - 1) as usize, value: ParseErrorValue::SingleDot },
        ),
        Ok((State::Number { start, dotted: _ }, toks)) => Ok(
            toks.push(token(start as int, TokenValue::Num(start, cs.len() as usize))),
        ),
        Err(e) => Err(e),
    }
}

/// Reads one character `c` at index `i`.
fn step(st: State, tokens: &mut Vec<Token>, i: usize, c: char) -> (r: Result<State, ParseError>)
    ensures
        r is Ok ==> feed(st, old(tokens)@, i as int, c) == Ok::<(State, Seq<Token>), ParseError>(
            (r->Ok_0, final(tokens)@),
        ),
        r is Err ==> feed(st, old(tokens)@, i as int, c) == Err::<(State, Seq<Token>), ParseError>(
            r->Err_0,
        ),
{
    let digit = '0' <= c && c <= '9';
    match st {
        State::Empty => {
            if let Some(op) = OpType::try_from(c) {
                tokens.push(Token { index: i, value: TokenValue::Op(op) });
                Ok(State::Empty)
            } else if digit {
                Ok(State::Number { start: i, dotted: false })
            } else if c == '.' {
                Ok(State::LeadingDot)
            } else if c == '(' {
                tokens.push(Token { index: i, value: TokenValue::LP });
                Ok(State::Empty)
            } else if c == ')' {
                tokens.push(Token { index: i, value: TokenValue::RP });
                Ok(State::Empty)
            } else if c == ' ' {
                Ok(State::Empty)
            } else {
                Err(ParseError { index: i, value: ParseErrorValue::UnexpectedCharacter })
            }
        },
        State::Number { start, dotted } => {
            let num = Token { index: i, value: TokenValue::Num(start, i) };
            if let Some(op) = OpType::try_from(c) {
                tokens.push(num);
                tokens.push(Token { index: i, value: TokenValue::Op(op) });
                Ok(State::Empty)
            } else if digit {
                Ok(st)
            } else if c == '.' {
                if dotted {
                    Err(ParseError { index: i, value: ParseErrorValue::MultipleDots })
                } else {
                    Ok(State::Number { start, dotted: true })
                }
            } else if c == '(' {
                tokens.push(num);
                tokens.push(Token { index: i, value: TokenValue::LP });
                Ok(State::Empty)
            } else if c == ')' {
                tokens.push(num);
                tokens.push(Token { index: i, value: TokenValue::RP });
                Ok(State::Empty)
            } else if c == ' ' {
                tokens.push(num);
                Ok(State::Empty)
            } else {
                Err(ParseError { index: i, value: ParseErrorValue::UnexpectedCharacter })
            }
        },
        State::LeadingDot => {
            if digit {
                Ok(State::Number { start: i, dotted: false })
            } else if c == '.' {
                Err(ParseError { index: i, value: ParseErrorValue::MultipleDots })
            } else {
                Err(ParseError { index: i, value: ParseErrorValue::SingleDot })
            }
        },
    }
}

/// Splits an expression into parentheses, operators and numbers; spaces
/// separate tokens and are dropped.
pub fn parse(expr: &str) -> (r: Result<Vec<Token>, ParseError>)
    ensures
        r is Ok ==> tokenize(expr@) == Ok::<Seq<Token>, ParseError>(r->Ok_0@),
        r is Err ==> tokenize(expr@) == Err::<Seq<Token>, ParseError>(r->Err_0),
{
    let n = expr.unicode_len();
    let mut state = State::Empty;
    let mut tokens: Vec<Token> = Vec::new();
    let mut i: usize = 0;
    while i < n
        invariant
            n == expr@.len(),
            i <= n,
            scan(expr@, i as nat) == Ok::<(State, Seq<Token>), ParseError>((state, tokens@)),
            state matches State::Number { start, dotted: _ } ==> start < i,
        decreases n - i,
    {
        let c = expr.get_char(i);
        match step(state, &mut tokens, i, c) {
            Ok(next) => {
                state = next;
            },
            Err(e) => {
                proof {
                    lemma_scan_stays_failed(expr@, (i + 1) as nat, n as nat, e);
                }
                return Err(e);
            },
        }
        i = i + 1;
    }
    match state {
        State::Empty => Ok(tokens),
        State::LeadingDot => Err(ParseError { index: n - 1, value: ParseErrorValue::SingleDot }),
        State::Number { start, dotted: _ } => {
            tokens.push(Token { index: start, value: TokenValue::Num(start, n) });
            Ok(tokens)
        },
    }
}

} // verus!
