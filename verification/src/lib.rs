//! A verified core for an interactive arithmetic calculator.
//!
//! Expression text is tokenized, reordered from infix to postfix notation by
//! a shunting-yard pass, and reduced by a stack-based postfix evaluator.  The
//! numeric domain of the calculator is double-precision floating point, which
//! stays outside the verified library: numeric literals travel through the
//! pipeline as text, and the evaluator produces an expression tree that pins
//! down exactly which operator is applied to which operands, in which order.
//! Folding that tree with floating-point arithmetic is the caller's final,
//! decision-free step.

pub mod eval;
pub mod postfix;
pub mod token;
pub mod tokenizer;

use vstd::prelude::*;

use crate::eval::{EvalError, Expr, expr_in_bounds, lemma_evaluate_preserves_bounds, spec_evaluate};
use crate::eval::{evaluate, lemma_evaluate_no_unexpected_parenthesis};
use crate::postfix::{ConvertError, lemma_to_postfix_preserves_bounds, spec_to_postfix};
use crate::postfix::{lemma_to_postfix_preserves_tokens, to_postfix};
use crate::tokenizer::{TokenizeError, TokenizeErrorView, literals_view, spec_tokenize};
use crate::tokenizer::tokenize;

verus! {

/// The failure of whichever stage of the pipeline failed first.
#[derive(PartialEq, Eq, Debug)]
pub enum ExpressionError {
    Tokenize(TokenizeError),
    Convert(ConvertError),
    Eval(EvalError),
}

/// The mathematical value of an `ExpressionError`.
pub enum ExpressionErrorView {
    Tokenize(TokenizeErrorView),
    Convert(ConvertError),
    Eval(EvalError),
}

impl View for ExpressionError {
    type V = ExpressionErrorView;

    open spec fn view(&self) -> ExpressionErrorView {
        match self {
            ExpressionError::Tokenize(e) => ExpressionErrorView::Tokenize(e@),
            ExpressionError::Convert(e) => ExpressionErrorView::Convert(*e),
            ExpressionError::Eval(e) => ExpressionErrorView::Eval(*e),
        }
    }
}

/// What evaluating expression text end to end yields: the expression tree
/// and the literal table its leaves refer to, or the first failing stage's
/// error, unchanged.
pub open spec fn spec_evaluate_expression(text: Seq<char>) -> Result<
    (Expr, Seq<Seq<char>>),
    ExpressionErrorView,
> {
    match spec_tokenize(text) {
        Ok(tl) => match spec_to_postfix(tl.0) {
            Ok(post) => match spec_evaluate(post) {
                Ok(e) => Ok((e, tl.1)),
                Err(e) => Err(ExpressionErrorView::Eval(e)),
            },
            Err(e) => Err(ExpressionErrorView::Convert(e)),
        },
        Err(e) => Err(ExpressionErrorView::Tokenize(e)),
    }
}

/// Chains the three stages — tokenize, convert to postfix, evaluate — and
/// stops at the first failing stage, returning its error unchanged.  On
/// success, returns the expression tree together with the table of numeric
/// literals its leaves refer to.
pub fn evaluate_expression(text: &str) -> (r: Result<(Expr, Vec<Vec<char>>), ExpressionError>)
    ensures
        match r {
            Ok(p) => spec_evaluate_expression(text@) == Ok::<_, ExpressionErrorView>(
                (p.0, literals_view(p.1@)),
            ) && expr_in_bounds(p.0, p.1@.len() as int),
            Err(e) => spec_evaluate_expression(text@) == Err::<(Expr, Seq<Seq<char>>), _>(e@),
        },
{
    let ts = match tokenize(text) {
        Ok(ts) => ts,
        Err(e) => {
            return Err(ExpressionError::Tokenize(e));
        },
    };
    let post = match to_postfix(&ts.tokens) {
        Ok(p) => p,
        Err(e) => {
            return Err(ExpressionError::Convert(e));
        },
    };
    match evaluate(&post) {
        Ok(expr) => {
            proof {
                lemma_to_postfix_preserves_bounds(ts.tokens@, ts.literals@.len() as int);
                lemma_evaluate_preserves_bounds(post@, ts.literals@.len() as int);
            }
            Ok((expr, ts.literals))
        },
        Err(e) => Err(ExpressionError::Eval(e)),
    }
}

/// Law: evaluation retains no state between calls — the outcome is a
/// function of the input text alone, so evaluating the same text twice
/// yields the same result.  Each executable stage is likewise pinned to a
/// function of its input by its own contract.
pub proof fn lemma_evaluate_expression_deterministic(text1: Seq<char>, text2: Seq<char>)
    requires
        text1 == text2,
    ensures
        spec_evaluate_expression(text1) == spec_evaluate_expression(text2),
{
}

/// Law: a parenthesis never reaches the evaluator through the pipeline —
/// a successful conversion's output is parenthesis-free, so the composed
/// evaluation never fails with `UnexpectedParenthesis`.
pub proof fn lemma_pipeline_never_unexpected_parenthesis(text: Seq<char>)
    ensures
        spec_evaluate_expression(text) != Err::<(Expr, Seq<Seq<char>>), _>(
            ExpressionErrorView::Eval(EvalError::UnexpectedParenthesis),
        ),
{
    match spec_tokenize(text) {
        Ok(tl) => {
            lemma_to_postfix_preserves_tokens(tl.0);
            match spec_to_postfix(tl.0) {
                Ok(post) => {
                    lemma_evaluate_no_unexpected_parenthesis(post);
                },
                Err(_) => {},
            }
        },
        Err(_) => {},
    }
}

} // verus!
