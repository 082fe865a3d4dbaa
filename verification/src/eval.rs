use vstd::prelude::*;

use crate::postfix::no_parens;
use crate::token::{Token, is_operator};
use crate::tokenizer::tokens_in_bounds;

verus! {

/// A binary operator of the calculator.  `Logarithm` is the logarithm of its
/// left operand in the base given by its right operand.
#[derive(Clone, Copy, PartialEq, Eq, Structural, Debug)]
pub enum Op {
    Add,
    Subtract,
    Multiply,
    Divide,
    Modulo,
    Power,
    Logarithm,
}

/// The result of evaluating a postfix token sequence: an expression tree
/// that fixes which operator is applied to which operands and in which
/// order.  A `Num` leaf refers to a numeric literal by its index in the
/// tokenizer's literal table.  Folding the tree with floating-point
/// arithmetic is left to the caller, so the numeric domain stays outside the
/// verified library.
#[derive(PartialEq, Eq, Debug)]
pub enum Expr {
    Num(usize),
    Apply(Op, Box<Expr>, Box<Expr>),
}

/// An evaluator failure: an empty input, a binary operator with fewer than
/// two operands available, more than one value left at the end, or a
/// parenthesis, which a postfix sequence must never contain.
#[derive(Clone, Copy, PartialEq, Eq, Structural, Debug)]
pub enum EvalError {
    EmptyExpression,
    StackUnderflow,
    IncompleteExpression,
    UnexpectedParenthesis,
}

/// The operator denoted by an operator token.
/// Meaningful only when `is_operator(t)` holds.
pub open spec fn op_for(t: Token) -> Op
    recommends
        is_operator(t),
{
    match t {
        Token::Subtract => Op::Subtract,
        Token::Multiply => Op::Multiply,
        Token::Divide => Op::Divide,
        Token::Modulo => Op::Modulo,
        Token::Power => Op::Power,
        Token::Logarithm => Op::Logarithm,
        _ => Op::Add,
    }
}

/// The operator denoted by an operator token.
fn op_token(t: &Token) -> (r: Op)
    requires
        is_operator(*t),
    ensures
        r == op_for(*t),
{
    match t {
        Token::Subtract => Op::Subtract,
        Token::Multiply => Op::Multiply,
        Token::Divide => Op::Divide,
        Token::Modulo => Op::Modulo,
        Token::Power => Op::Power,
        Token::Logarithm => Op::Logarithm,
        _ => Op::Add,
    }
}

/// The evaluator's pass from position `i` onward, given the operand stack of
/// already-built subtrees: a number is pushed; a binary operator pops the
/// two most recently pushed operands — the one pushed later is the right
/// operand — and pushes their application.  Success requires exactly one
/// value on the stack at the end.
pub open spec fn spec_evaluate_from(tokens: Seq<Token>, i: int, stack: Seq<Expr>) -> Result<
    Expr,
    EvalError,
>
    decreases tokens.len() - i,
{
    if i < 0 || i >= tokens.len() {
        if stack.len() == 1 {
            Ok(stack[0])
        } else {
            Err(EvalError::IncompleteExpression)
        }
    } else {
        match tokens[i] {
            Token::Number(k) => spec_evaluate_from(tokens, i + 1, stack.push(Expr::Num(k))),
            Token::LeftParen => Err(EvalError::UnexpectedParenthesis),
            Token::RightParen => Err(EvalError::UnexpectedParenthesis),
            _ => {
                if stack.len() < 2 {
                    Err(EvalError::StackUnderflow)
                } else {
                    let left = stack[stack.len() - 2];
                    let right = stack.last();
                    spec_evaluate_from(
                        tokens,
                        i + 1,
                        stack.drop_last().drop_last().push(
                            Expr::Apply(op_for(tokens[i]), Box::new(left), Box::new(right)),
                        ),
                    )
                }
            },
        }
    }
}

/// What evaluating a postfix token sequence yields: the expression tree, or
/// the first failure.  An empty sequence is the `EmptyExpression` failure,
/// not a zero value.
pub open spec fn spec_evaluate(tokens: Seq<Token>) -> Result<Expr, EvalError> {
    if tokens.len() == 0 {
        Err(EvalError::EmptyExpression)
    } else {
        spec_evaluate_from(tokens, 0, Seq::empty())
    }
}

/// Every `Num` leaf of an expression tree refers to an entry of a literal
/// table of length `n`.
pub open spec fn expr_in_bounds(e: Expr, n: int) -> bool
    decreases e,
{
    match e {
        Expr::Num(k) => k < n,
        Expr::Apply(_, l, r) => expr_in_bounds(*l, n) && expr_in_bounds(*r, n),
    }
}

proof fn lemma_evaluate_from_bounds(tokens: Seq<Token>, i: int, stack: Seq<Expr>, n: int)
    requires
        0 <= i <= tokens.len(),
        tokens_in_bounds(tokens, n),
        forall|k: int| 0 <= k < stack.len() ==> expr_in_bounds(#[trigger] stack[k], n),
    ensures
        spec_evaluate_from(tokens, i, stack) matches Ok(res) ==> expr_in_bounds(res, n),
    decreases tokens.len() - i,
{
    if i >= tokens.len() {
    } else {
        match tokens[i] {
            Token::Number(k) => {
                let stack2 = stack.push(Expr::Num(k));
                assert(tokens[i] matches Token::Number(j) ==> j < n);
                assert(forall|m: int|
                    0 <= m < stack2.len() ==> expr_in_bounds(#[trigger] stack2[m], n));
                lemma_evaluate_from_bounds(tokens, i + 1, stack2, n);
            },
            Token::LeftParen => {},
            Token::RightParen => {},
            _ => {
                if stack.len() >= 2 {
                    let left = stack[stack.len() - 2];
                    let right = stack.last();
                    let e = Expr::Apply(op_for(tokens[i]), Box::new(left), Box::new(right));
                    let stack2 = stack.drop_last().drop_last().push(e);
                    assert(forall|m: int|
                        0 <= m < stack2.len() ==> expr_in_bounds(#[trigger] stack2[m], n));
                    lemma_evaluate_from_bounds(tokens, i + 1, stack2, n);
                }
            },
        }
    }
}

/// Law: when every `Number` token of a postfix sequence refers to an entry
/// of a literal table of length `n`, every `Num` leaf of the expression tree
/// that a successful evaluation yields does too.
pub proof fn lemma_evaluate_preserves_bounds(tokens: Seq<Token>, n: int)
    requires
        tokens_in_bounds(tokens, n),
    ensures
        spec_evaluate(tokens) matches Ok(res) ==> expr_in_bounds(res, n),
{
    if tokens.len() > 0 {
        lemma_evaluate_from_bounds(tokens, 0, Seq::empty(), n);
    }
}

proof fn lemma_evaluate_from_no_paren_failure(tokens: Seq<Token>, i: int, stack: Seq<Expr>)
    requires
        0 <= i <= tokens.len(),
        no_parens(tokens),
    ensures
        spec_evaluate_from(tokens, i, stack) != Err::<Expr, _>(EvalError::UnexpectedParenthesis),
    decreases tokens.len() - i,
{
    if i < tokens.len() {
        match tokens[i] {
            Token::Number(k) => {
                lemma_evaluate_from_no_paren_failure(tokens, i + 1, stack.push(Expr::Num(k)));
            },
            Token::LeftParen => {
                assert(!(tokens[i] is LeftParen));
            },
            Token::RightParen => {
                assert(!(tokens[i] is LeftParen));
            },
            _ => {
                if stack.len() >= 2 {
                    let left = stack[stack.len() - 2];
                    let right = stack.last();
                    let e = Expr::Apply(op_for(tokens[i]), Box::new(left), Box::new(right));
                    lemma_evaluate_from_no_paren_failure(
                        tokens,
                        i + 1,
                        stack.drop_last().drop_last().push(e),
                    );
                }
            },
        }
    }
}

/// Law: on a parenthesis-free sequence — such as any successful conversion's
/// output — evaluation never fails with `UnexpectedParenthesis`.
pub proof fn lemma_evaluate_no_unexpected_parenthesis(tokens: Seq<Token>)
    requires
        no_parens(tokens),
    ensures
        spec_evaluate(tokens) != Err::<Expr, _>(EvalError::UnexpectedParenthesis),
{
    if tokens.len() > 0 {
        lemma_evaluate_from_no_paren_failure(tokens, 0, Seq::empty());
    }
}

/// Reduces a postfix token sequence with an explicit operand stack to the
/// expression tree it denotes.  The result is pinned down by
/// `spec_evaluate`, failures included.
pub fn evaluate(tokens: &Vec<Token>) -> (r: Result<Expr, EvalError>)
    ensures
        match r {
            Ok(e) => spec_evaluate(tokens@) == Ok::<_, EvalError>(e),
            Err(err) => spec_evaluate(tokens@) == Err::<Expr, _>(err),
        },
{
    if tokens.len() == 0 {
        return Err(EvalError::EmptyExpression);
    }
    let mut stack: Vec<Expr> = Vec::new();
    proof {
        assert(stack@ =~= Seq::<Expr>::empty());
    }
    let mut i: usize = 0;
    while i < tokens.len()
        invariant
            i <= tokens@.len(),
            tokens@.len() > 0,
            spec_evaluate(tokens@) == spec_evaluate_from(tokens@, i as int, stack@),
        decreases tokens@.len() - i,
    {
        let t = tokens[i];
        match t {
            Token::Number(k) => {
                stack.push(Expr::Num(k));
            },
            Token::LeftParen => {
                return Err(EvalError::UnexpectedParenthesis);
            },
            Token::RightParen => {
                return Err(EvalError::UnexpectedParenthesis);
            },
            _ => {
                if stack.len() < 2 {
                    return Err(EvalError::StackUnderflow);
                }
                let right = match stack.pop() {
                    Some(x) => x,
                    None => {
                        return Err(EvalError::StackUnderflow);
                    },
                };
                let left = match stack.pop() {
                    Some(x) => x,
                    None => {
                        return Err(EvalError::StackUnderflow);
                    },
                };
                let op = op_token(&t);
                stack.push(Expr::Apply(op, Box::new(left), Box::new(right)));
            },
        }
        i = i + 1;
    }
    if stack.len() == 1 {
        match stack.pop() {
            Some(e) => Ok(e),
            None => Err(EvalError::IncompleteExpression),
        }
    } else {
        Err(EvalError::IncompleteExpression)
    }
}

} // verus!
