//! Builds an expression tree from tokens. An operator takes the two operands
//! that follow it (prefix notation); a parenthesis opens a group that ends at
//! the first closing parenthesis after it, and the group is built first.
use vstd::prelude::*;

use crate::codegen::Expr;
use crate::parser::{Token, TokenValue};

verus! {

/// A slot of the working sequence: a built expression, a token not yet used,
/// or nothing.
#[derive(Debug)]
pub enum IntermediateExpr {
    Owned(Expr),
    Token(Token),
    Empty,
}

/// Where and why the tokens do not form an expression.
#[derive(Clone, Copy, Debug, PartialEq, Eq, Structural)]
pub struct LexError {
    pub token: Token,
    pub value: LexErrorValue,
}

/// Why the tokens do not form an expression.
#[derive(Clone, Copy, Debug, PartialEq, Eq, Structural)]
pub enum LexErrorValue {
    UnmatchedParenthesis,
    InvalidNumberOfArguments,
}

/// The outcome of building: the final working sequence, or an error.
pub type Built = Result<Seq<IntermediateExpr>, LexError>;

pub open spec fn is_lp(x: IntermediateExpr) -> bool {
    x matches IntermediateExpr::Token(t) && t.value == TokenValue::LP
}

pub open spec fn is_rp(x: IntermediateExpr) -> bool {
    x matches IntermediateExpr::Token(t) && t.value == TokenValue::RP
}

pub open spec fn is_op(x: IntermediateExpr) -> bool {
    x matches IntermediateExpr::Token(t) && t.value is Op
}

/// The kinds of token the builder looks for.
#[derive(Clone, Copy, Debug, PartialEq, Eq, Structural)]
pub enum Sought {
    Open,
    Close,
    Operator,
    Expression,
}

pub open spec fn is_sought(x: IntermediateExpr, k: Sought) -> bool {
    match k {
        Sought::Open => is_lp(x),
        Sought::Close => is_rp(x),
        Sought::Operator => is_op(x),
        Sought::Expression => x is Owned,
    }
}

/// `i` is the first index in `lo..hi` whose slot holds a token of kind `p`.
pub open spec fn first_at(
    ts: Seq<IntermediateExpr>,
    lo: int,
    hi: int,
    p: Sought,
    i: int,
) -> bool {
    lo <= i < hi && is_sought(ts[i], p) && forall|j: int| lo <= j < i ==> !is_sought(#[trigger] ts[j], p)
}

/// The first index in `lo..hi` whose slot holds a token of kind `p`.
pub open spec fn first_where(
    ts: Seq<IntermediateExpr>,
    lo: int,
    hi: int,
    p: Sought,
) -> Option<int> {
    if exists|i: int| first_at(ts, lo, hi, p, i) {
        Some(choose|i: int| first_at(ts, lo, hi, p, i))
    } else {
        None
    }
}

/// The indices in `lo..hi` that hold built expressions, in order.
pub open spec fn owned_in(ts: Seq<IntermediateExpr>, lo: int, hi: int) -> Seq<int>
    decreases hi - lo,
{
    if hi <= lo {
        Seq::empty()
    } else if ts[hi - 1] is Owned {
        owned_in(ts, lo, hi - 1).push(hi - 1)
    } else {
        owned_in(ts, lo, hi - 1)
    }
}

/// The operator token at `o` applied to the expressions at `a` and `b`: the
/// result takes the operator's slot and the operands' slots are emptied.
pub open spec fn combine_at(ts: Seq<IntermediateExpr>, o: int, a: int, b: int) -> Seq<
    IntermediateExpr,
> {
    let op = ts[o]->Token_0.value->Op_0;
    let lhs = ts[a]->Owned_0;
    let rhs = ts[b]->Owned_0;
    ts.update(a, IntermediateExpr::Empty).update(b, IntermediateExpr::Empty).update(
        o,
        IntermediateExpr::Owned(Expr::Binary(op, Box::new(lhs), Box::new(rhs))),
    )
}

/// Applies the operators of `lo..hi`, first to last, with at most `fuel`
/// applications; `None` when the fuel runs out.
pub open spec fn apply_ops(ts: Seq<IntermediateExpr>, lo: int, hi: int, fuel: nat) -> Option<
    Built,
>
    decreases fuel,
{
    if fuel == 0 {
        None
    } else {
        match first_where(ts, lo, hi, Sought::Operator) {
            None => Some(Ok(ts)),
            Some(o) => {
                let args = owned_in(ts, o + 1, hi);
                if args.len() != 2 {
                    Some(
                        Err(
                            LexError {
                                token: ts[o]->Token_0,
                                value: LexErrorValue::InvalidNumberOfArguments,
                            },
                        ),
                    )
                } else {
                    apply_ops(combine_at(ts, o, args[0], args[1]), lo, hi, (fuel - 1) as nat)
                }
            },
        }
    }
}

/// Builds `lo..hi`: each parenthesised group in turn (the first opening
/// parenthesis with the first closing one after it), then the operators;
/// `None` when `fuel` runs out.
pub open spec fn build(ts: Seq<IntermediateExpr>, lo: int, hi: int, fuel: nat) -> Option<Built>
    decreases fuel,
{
    if fuel == 0 {
        None
    } else {
        match first_where(ts, lo, hi, Sought::Open) {
            None => apply_ops(ts, lo, hi, (fuel - 1) as nat),
            Some(l) => match first_where(ts, l + 1, hi, Sought::Close) {
                None => Some(
                    Err(
                        LexError { token: ts[l]->Token_0, value: LexErrorValue::UnmatchedParenthesis },
                    ),
                ),
                Some(r) => {
                    let inner = ts.update(l, IntermediateExpr::Empty).update(
                        r,
                        IntermediateExpr::Empty,
                    );
                    match build(inner, l + 1, r, (fuel - 1) as nat) {
                        None => None,
                        Some(Err(e)) => Some(Err(e)),
                        Some(Ok(done)) => build(done, lo, hi, (fuel - 1) as nat),
                    }
                },
            },
        }
    }
}

/// More fuel changes no outcome that less fuel reached.
pub proof fn lemma_apply_ops_fuel(ts: Seq<IntermediateExpr>, lo: int, hi: int, f: nat, g: nat)
    requires
        f <= g,
        apply_ops(ts, lo, hi, f) is Some,
    ensures
        apply_ops(ts, lo, hi, g) == apply_ops(ts, lo, hi, f),
    decreases f,
{
    if f > 0 {
        match first_where(ts, lo, hi, Sought::Operator) {
            None => {},
            Some(o) => {
                let args = owned_in(ts, o + 1, hi);
                if args.len() == 2 {
                    lemma_apply_ops_fuel(
                        combine_at(ts, o, args[0], args[1]),
                        lo,
                        hi,
                        (f - 1) as nat,
                        (g - 1) as nat,
                    );
                }
            },
        }
    }
}

/// More fuel changes no outcome that less fuel reached.
pub proof fn lemma_build_fuel(ts: Seq<IntermediateExpr>, lo: int, hi: int, f: nat, g: nat)
    requires
        f <= g,
        build(ts, lo, hi, f) is Some,
    ensures
        build(ts, lo, hi, g) == build(ts, lo, hi, f),
    decreases f,
{
    if f > 0 {
        match first_where(ts, lo, hi, Sought::Open) {
            None => {
                lemma_apply_ops_fuel(ts, lo, hi, (f - 1) as nat, (g - 1) as nat);
            },
            Some(l) => match first_where(ts, l + 1, hi, Sought::Close) {
                None => {},
                Some(r) => {
                    let inner = ts.update(l, IntermediateExpr::Empty).update(
                        r,
                        IntermediateExpr::Empty,
                    );
                    lemma_build_fuel(inner, l + 1, r, (f - 1) as nat, (g - 1) as nat);
                    match build(inner, l + 1, r, (f - 1) as nat) {
                        Some(Ok(done)) => {
                            lemma_build_fuel(done, lo, hi, (f - 1) as nat, (g - 1) as nat);
                        },
                        _ => {},
                    }
                },
            },
        }
    }
}

/// The number of slots in `lo..hi` that hold a token of kind `k`.
pub open spec fn count(ts: Seq<IntermediateExpr>, lo: int, hi: int, k: Sought) -> nat
    decreases hi - lo,
{
    if hi <= lo {
        0
    } else {
        count(ts, lo, hi - 1, k) + if is_sought(ts[hi - 1], k) {
            1nat
        } else {
            0nat
        }
    }
}

/// Where `b` holds a kind only where `a` does, `b` holds no more of it, and
/// fewer if `a` holds it at `w` and `b` does not.
proof fn lemma_count_shrinks(
    a: Seq<IntermediateExpr>,
    b: Seq<IntermediateExpr>,
    lo: int,
    hi: int,
    k: Sought,
    w: int,
)
    requires
        forall|i: int| lo <= i < hi && is_sought(#[trigger] b[i], k) ==> is_sought(a[i], k),
        lo <= w < hi,
        is_sought(a[w], k),
        !is_sought(b[w], k),
    ensures
        count(b, lo, hi, k) < count(a, lo, hi, k),
    decreases hi - lo,
{
    if w < hi - 1 {
        lemma_count_shrinks(a, b, lo, hi - 1, k, w);
    } else {
        lemma_count_no_more(a, b, lo, hi - 1, k);
    }
}

proof fn lemma_count_no_more(a: Seq<IntermediateExpr>, b: Seq<IntermediateExpr>, lo: int, hi: int, k: Sought)
    requires
        forall|i: int| lo <= i < hi && is_sought(#[trigger] b[i], k) ==> is_sought(a[i], k),
    ensures
        count(b, lo, hi, k) <= count(a, lo, hi, k),
    decreases hi - lo,
{
    if lo < hi {
        lemma_count_no_more(a, b, lo, hi - 1, k);
    }
}

proof fn lemma_first(ts: Seq<IntermediateExpr>, lo: int, hi: int, k: Sought, i: int)
    requires
        first_at(ts, lo, hi, k, i),
    ensures
        first_where(ts, lo, hi, k) == Some(i),
{
    let j = choose|j: int| first_at(ts, lo, hi, k, j);
    assert(first_at(ts, lo, hi, k, j));
    if j < i {
        assert(!is_sought(ts[j], k));
    } else if i < j {
        assert(!is_sought(ts[i], k));
    }
}

/// The indices of `owned_in` lie in `lo..hi`, hold expressions, and rise.
proof fn lemma_owned_in(ts: Seq<IntermediateExpr>, lo: int, hi: int)
    ensures
        forall|m: int|
            0 <= m < owned_in(ts, lo, hi).len() ==> lo <= #[trigger] owned_in(ts, lo, hi)[m] < hi
                && ts[owned_in(ts, lo, hi)[m]] is Owned,
        forall|m: int, n: int|
            0 <= m < n < owned_in(ts, lo, hi).len() ==> #[trigger] owned_in(ts, lo, hi)[m]
                < #[trigger] owned_in(ts, lo, hi)[n],
    decreases hi - lo,
{
    if lo < hi {
        lemma_owned_in(ts, lo, hi - 1);
    }
}

/// Whether a slot holds a token of kind `k`.
fn holds(x: &IntermediateExpr, k: Sought) -> (r: bool)
    ensures
        r == is_sought(*x, k),
{
    match x {
        IntermediateExpr::Token(t) => match k {
            Sought::Open => t.value == TokenValue::LP,
            Sought::Close => t.value == TokenValue::RP,
            Sought::Operator => match t.value {
                TokenValue::Op(_) => true,
                _ => false,
            },
            Sought::Expression => false,
        },
        IntermediateExpr::Owned(_) => k == Sought::Expression,
        IntermediateExpr::Empty => false,
    }
}

/// The first index in `lo..hi` whose slot holds a token of kind `k`.
fn find(ts: &Vec<IntermediateExpr>, lo: usize, hi: usize, k: Sought) -> (r: Option<usize>)
    requires
        lo <= hi <= ts@.len(),
    ensures
        r matches Some(i) ==> first_where(ts@, lo as int, hi as int, k) == Some(i as int)
            && first_at(ts@, lo as int, hi as int, k, i as int),
        r is None ==> first_where(ts@, lo as int, hi as int, k) is None
            && forall|j: int| lo <= j < hi ==> !is_sought(#[trigger] ts@[j], k),
{
    let mut i = lo;
    while i < hi
        invariant
            lo <= i <= hi <= ts@.len(),
            forall|j: int| lo <= j < i ==> !is_sought(#[trigger] ts@[j], k),
        decreases hi - i,
    {
        if holds(&ts[i], k) {
            proof {
                lemma_first(ts@, lo as int, hi as int, k, i as int);
            }
            return Some(i);
        }
        i = i + 1;
    }
    assert(!exists|j: int| first_at(ts@, lo as int, hi as int, k, j));
    None
}

/// The indices in `lo..hi` that hold expressions, in order.
fn owned_after(ts: &Vec<IntermediateExpr>, lo: usize, hi: usize) -> (r: Vec<usize>)
    requires
        lo <= hi <= ts@.len(),
    ensures
        r@.len() == owned_in(ts@, lo as int, hi as int).len(),
        forall|m: int| 0 <= m < r@.len() ==> r@[m] as int == owned_in(ts@, lo as int, hi as int)[m],
{
    let mut args: Vec<usize> = Vec::new();
    let mut i = lo;
    while i < hi
        invariant
            lo <= i <= hi <= ts@.len(),
            args@.len() == owned_in(ts@, lo as int, i as int).len(),
            forall|m: int|
                0 <= m < args@.len() ==> args@[m] as int == owned_in(ts@, lo as int, i as int)[m],
        decreases hi - i,
    {
        if holds(&ts[i], Sought::Expression) {
            args.push(i);
        }
        i = i + 1;
    }
    args
}

/// The token in a slot known to hold one.
fn token_in(x: &IntermediateExpr) -> (r: Token)
    requires
        *x is Token,
    ensures
        r == x->Token_0,
{
    match x {
        IntermediateExpr::Token(t) => *t,
        _ => vstd::pervasive::unreached(),
    }
}

/// Takes the expression out of slot `i`, leaving it empty.
fn take_expr(ts: &mut Vec<IntermediateExpr>, i: usize) -> (r: Expr)
    requires
        i < old(ts)@.len(),
        old(ts)@[i as int] is Owned,
    ensures
        final(ts)@ == old(ts)@.update(i as int, IntermediateExpr::Empty),
        r == old(ts)@[i as int]->Owned_0,
{
    let mut slot = IntermediateExpr::Empty;
    ts.set_and_swap(i, &mut slot);
    match slot {
        IntermediateExpr::Owned(e) => e,
        _ => vstd::pervasive::unreached(),
    }
}

/// Builds the slots `lo..hi` in place: groups first, then operators.
fn process(ts: &mut Vec<IntermediateExpr>, lo: usize, hi: usize) -> (r: Result<(), LexError>)
    requires
        lo <= hi <= old(ts)@.len(),
    ensures
        final(ts)@.len() == old(ts)@.len(),
        r is Ok ==> exists|f: nat|
            build(old(ts)@, lo as int, hi as int, f) == Some(
                Ok::<Seq<IntermediateExpr>, LexError>(final(ts)@),
            ),
        r is Err ==> exists|f: nat|
            build(old(ts)@, lo as int, hi as int, f) == Some(
                Err::<Seq<IntermediateExpr>, LexError>(r->Err_0),
            ),
        r is Ok ==> forall|i: int|
            0 <= i < old(ts)@.len() && !(lo <= i < hi) ==> final(ts)@[i] == old(ts)@[i],
        r is Ok ==> forall|i: int| lo <= i < hi ==> !is_lp(#[trigger] final(ts)@[i]),
    decreases hi - lo,
{
    let ghost start = ts@;
    loop
        invariant
            start == old(ts)@,
            lo <= hi <= ts@.len(),
            ts@.len() == start.len(),
            forall|i: int| 0 <= i < start.len() && !(lo <= i < hi) ==> ts@[i] == start[i],
            forall|out: Built, f: nat|
                build(ts@, lo as int, hi as int, f) == Some(out) ==> exists|g: nat|
                    build(start, lo as int, hi as int, g) == Some(out),
        ensures
            ts@.len() == start.len(),
            forall|i: int| 0 <= i < start.len() && !(lo <= i < hi) ==> ts@[i] == start[i],
            forall|i: int| lo <= i < hi ==> !is_lp(#[trigger] ts@[i]),
            forall|out: Built, f: nat|
                apply_ops(ts@, lo as int, hi as int, f) == Some(out) ==> exists|g: nat|
                    build(start, lo as int, hi as int, g) == Some(out),
        decreases count(ts@, lo as int, hi as int, Sought::Open),
    {
        let l = match find(ts, lo, hi, Sought::Open) {
            Some(l) => l,
            None => {
                proof {
                    assert forall|out: Built, f: nat|
                        apply_ops(ts@, lo as int, hi as int, f) == Some(out) implies exists|g: nat|
                        build(start, lo as int, hi as int, g) == Some(out) by {
                        assert(build(ts@, lo as int, hi as int, f + 1) == Some(out));
                    }
                }
                break ;
            },
        };
        let r = match find(ts, l + 1, hi, Sought::Close) {
            Some(r) => r,
            None => {
                let token = token_in(&ts[l]);
                let e = LexError { token, value: LexErrorValue::UnmatchedParenthesis };
                assert(build(ts@, lo as int, hi as int, 1) == Some(
                    Err::<Seq<IntermediateExpr>, LexError>(e),
                ));
                return Err(e);
            },
        };
        let ghost before = ts@;
        ts.set(l, IntermediateExpr::Empty);
        ts.set(r, IntermediateExpr::Empty);
        let ghost inner = ts@;
        match process(ts, l + 1, r) {
            Ok(()) => {
                proof {
                    let f1 = choose|f: nat|
                        #[trigger] build(inner, l + 1, r as int, f) == Some(
                            Ok::<Seq<IntermediateExpr>, LexError>(ts@),
                        );
                    assert forall|out: Built, f2: nat|
                        build(ts@, lo as int, hi as int, f2) == Some(out) implies exists|g: nat|
                        build(start, lo as int, hi as int, g) == Some(out) by {
                        lemma_build_fuel(inner, l + 1, r as int, f1, f1 + f2);
                        lemma_build_fuel(ts@, lo as int, hi as int, f2, f1 + f2);
                        assert(build(before, lo as int, hi as int, f1 + f2 + 1) == Some(out));
                    }
                    lemma_count_shrinks(before, ts@, lo as int, hi as int, Sought::Open, l as int);
                }
            },
            Err(e) => {
                proof {
                    let f1 = choose|f: nat|
                        #[trigger] build(inner, l + 1, r as int, f) == Some(
                            Err::<Seq<IntermediateExpr>, LexError>(e),
                        );
                    assert(build(before, lo as int, hi as int, f1 + 1) == Some(
                        Err::<Seq<IntermediateExpr>, LexError>(e),
                    ));
                }
                return Err(e);
            },
        }
    }
    loop
        invariant
            start == old(ts)@,
            lo <= hi <= ts@.len(),
            ts@.len() == start.len(),
            forall|i: int| 0 <= i < start.len() && !(lo <= i < hi) ==> ts@[i] == start[i],
            forall|i: int| lo <= i < hi ==> !is_lp(#[trigger] ts@[i]),
            forall|out: Built, f: nat|
                apply_ops(ts@, lo as int, hi as int, f) == Some(out) ==> exists|g: nat|
                    build(start, lo as int, hi as int, g) == Some(out),
        decreases count(ts@, lo as int, hi as int, Sought::Operator),
    {
        let o = match find(ts, lo, hi, Sought::Operator) {
            Some(o) => o,
            None => {
                assert(apply_ops(ts@, lo as int, hi as int, 1) == Some(
                    Ok::<Seq<IntermediateExpr>, LexError>(ts@),
                ));
                return Ok(());
            },
        };
        let args = owned_after(ts, o + 1, hi);
        let token = token_in(&ts[o]);
        if args.len() != 2 {
            let e = LexError { token, value: LexErrorValue::InvalidNumberOfArguments };
            assert(apply_ops(ts@, lo as int, hi as int, 1) == Some(
                Err::<Seq<IntermediateExpr>, LexError>(e),
            ));
            return Err(e);
        }
        let op = match token.value {
            TokenValue::Op(op) => op,
            _ => vstd::pervasive::unreached(),
        };
        let ghost before = ts@;
        proof {
            lemma_owned_in(before, o + 1, hi as int);
        }
        let a = args[0];
        let b = args[1];
        let lhs = take_expr(ts, a);
        let rhs = take_expr(ts, b);
        ts.set(o, IntermediateExpr::Owned(Expr::Binary(op, Box::new(lhs), Box::new(rhs))));
        proof {
            assert(ts@ =~= combine_at(before, o as int, a as int, b as int));
            assert forall|out: Built, f: nat|
                apply_ops(ts@, lo as int, hi as int, f) == Some(out) implies exists|g: nat|
                build(start, lo as int, hi as int, g) == Some(out) by {
                assert(apply_ops(before, lo as int, hi as int, f + 1) == Some(out));
            }
            lemma_count_shrinks(before, ts@, lo as int, hi as int, Sought::Operator, o as int);
        }
    }
}

/// The working sequence for tokens: a number token becomes the expression of
/// its number (`numbers[i]` for the token at `i`), any other token stays.
pub open spec fn slots(tokens: Seq<Token>, numbers: Seq<u64>) -> Seq<IntermediateExpr> {
    Seq::new(
        tokens.len(),
        |i: int|
            if tokens[i].value is Num {
                IntermediateExpr::Owned(Expr::Number(numbers[i]))
            } else {
                IntermediateExpr::Token(tokens[i])
            },
    )
}

/// The expression in the first slot that holds one.
pub open spec fn first_expr(ts: Seq<IntermediateExpr>) -> Option<Expr> {
    match first_where(ts, 0, ts.len() as int, Sought::Expression) {
        Some(i) => Some(ts[i]->Owned_0),
        None => None,
    }
}

/// Builds the expression tree of a token sequence. The caller reads the
/// numbers: `numbers[i]` is the double of the token at `i` where that token
/// is a number, and is not looked at elsewhere. Gives the first expression
/// left once every group and operator is built, or `None` when there is none.
pub fn lex(tokens: Vec<Token>, numbers: Vec<u64>) -> (r: Result<Option<Expr>, LexError>)
    requires
        numbers@.len() == tokens@.len(),
    ensures
        r is Ok ==> exists|f: nat, done: Seq<IntermediateExpr>|
            build(slots(tokens@, numbers@), 0, tokens@.len() as int, f) == Some(
                Ok::<Seq<IntermediateExpr>, LexError>(done),
            ) && r->Ok_0 == first_expr(done),
        r is Err ==> exists|f: nat|
            build(slots(tokens@, numbers@), 0, tokens@.len() as int, f) == Some(
                Err::<Seq<IntermediateExpr>, LexError>(r->Err_0),
            ),
{
    let n = tokens.len();
    let mut ts: Vec<IntermediateExpr> = Vec::new();
    let mut i: usize = 0;
    while i < n
        invariant
            n == tokens@.len(),
            n == numbers@.len(),
            i <= n,
            ts@ =~= slots(tokens@, numbers@).subrange(0, i as int),
        decreases n - i,
    {
        let t = tokens[i];
        match t.value {
            TokenValue::Num(_, _) => ts.push(IntermediateExpr::Owned(Expr::Number(numbers[i]))),
            _ => ts.push(IntermediateExpr::Token(t)),
        }
        i = i + 1;
    }
    assert(ts@ =~= slots(tokens@, numbers@));
    let ghost start = ts@;
    match process(&mut ts, 0, n) {
        Ok(()) => {
            let ghost done = ts@;
            let ghost f = choose|f: nat|
                #[trigger] build(start, 0, n as int, f) == Some(
                    Ok::<Seq<IntermediateExpr>, LexError>(done),
                );
            let r = match find(&ts, 0, n, Sought::Expression) {
                Some(k) => Some(take_expr(&mut ts, k)),
                None => None,
            };
            assert(build(start, 0, n as int, f) == Some(Ok::<Seq<IntermediateExpr>, LexError>(done))
                && r == first_expr(done));
            Ok(r)
        },
        Err(e) => Err(e),
    }
}

} // verus!
