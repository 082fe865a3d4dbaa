use postfix_calc::ExpressionError;
use postfix_calc::evaluate_expression;
use postfix_calc::eval::evaluate;
use postfix_calc::eval::{EvalError, Expr, Op};
use postfix_calc::postfix::ConvertError;
use postfix_calc::postfix::to_postfix;
use postfix_calc::token::Token;
use postfix_calc::token::{is_token, precedence_rank};
use postfix_calc::tokenizer::TokenizeError;
use postfix_calc::tokenizer::tokenize;

fn lit(s: &str) -> Vec<char> {
    s.chars().collect()
}

/// Folds an expression tree with double-precision floating-point arithmetic,
/// the caller-side step that the verified library leaves out.
fn fold(e: &Expr, lits: &Vec<Vec<char>>) -> f64 {
    match e {
        Expr::Num(i) => lits[*i].iter().collect::<String>().parse::<f64>().unwrap(),
        Expr::Apply(op, l, r) => {
            let a = fold(l, lits);
            let b = fold(r, lits);
            match op {
                Op::Add => a + b,
                Op::Subtract => a - b,
                Op::Multiply => a * b,
                Op::Divide => a / b,
                Op::Modulo => a % b,
                Op::Power => a.powf(b),
                Op::Logarithm => a.log(b),
            }
        }
    }
}

fn eval_text(s: &str) -> Result<f64, ExpressionError> {
    let (expr, lits) = evaluate_expression(s)?;
    Ok(fold(&expr, &lits))
}

#[test]
fn parse_test() {
    let ts = tokenize("10 * (1 + 2 * 3) + 4").unwrap();
    let tokens = vec![
        Token::Number(0),
        Token::Multiply,
        Token::LeftParen,
        Token::Number(1),
        Token::Add,
        Token::Number(2),
        Token::Multiply,
        Token::Number(3),
        Token::RightParen,
        Token::Add,
        Token::Number(4),
    ];
    assert_eq!(ts.tokens, tokens);
    assert_eq!(
        ts.literals,
        vec![lit("10"), lit("1"), lit("2"), lit("3"), lit("4")]
    );
    let ts2 = tokenize("10 + 2 * 3").unwrap();
    let token2 = vec![
        Token::Number(0),
        Token::Number(1),
        Token::Number(2),
        Token::Multiply,
        Token::Add,
    ];
    assert_eq!(to_postfix(&ts2.tokens).unwrap(), token2);
    assert_eq!(eval_text("10 * (1 + 2 * 3) + 4").ok(), Some(74.0));
    assert_eq!(eval_text("10 + 2 * 3").ok(), Some(16.0));
}

#[test]
fn postfix_of_parenthesized_expression() {
    let ts = tokenize("10 * (1 + 2 * 3) + 4").unwrap();
    let post = to_postfix(&ts.tokens).unwrap();
    let expected = vec![
        Token::Number(0),
        Token::Number(1),
        Token::Number(2),
        Token::Number(3),
        Token::Multiply,
        Token::Add,
        Token::Multiply,
        Token::Number(4),
        Token::Add,
    ];
    assert_eq!(post, expected);
    // Only reordering: the two parentheses are discarded, nothing else.
    assert_eq!(post.len(), ts.tokens.len() - 2);
}

#[test]
fn end_to_end_evaluation() {
    assert_eq!(eval_text("10 * (1 + 2 * 3) + 4").ok(), Some(74.0));
}

#[test]
fn multiplication_binds_tighter_than_addition() {
    assert_eq!(eval_text("10 + 2 * 3").ok(), Some(16.0));
}

#[test]
fn operator_catalogue() {
    assert_eq!(eval_text("10 - 4").ok(), Some(6.0));
    assert_eq!(eval_text("8 / 2").ok(), Some(4.0));
    assert_eq!(eval_text("7 % 3").ok(), Some(1.0));
    assert_eq!(eval_text("2 ^ 10").ok(), Some(1024.0));
    assert_eq!(eval_text("100 _ 10").ok(), Some(2.0));
}

#[test]
fn left_to_right_associativity() {
    assert_eq!(eval_text("10 - 4 - 3").ok(), Some(3.0));
    assert_eq!(eval_text("16 / 4 / 2").ok(), Some(2.0));
    // Equal precedence pops, so exponentiation associates left to right too.
    assert_eq!(eval_text("2 ^ 3 ^ 2").ok(), Some(64.0));
}

#[test]
fn decimal_literals() {
    assert_eq!(eval_text("10.5 + 0.25").ok(), Some(10.75));
    assert_eq!(eval_text(".5 + 1").ok(), Some(1.5));
    assert_eq!(eval_text("10. / 4").ok(), Some(2.5));
    assert_eq!(eval_text("1+2*(3_10/(10.222222^4))").is_ok(), true);
}

#[test]
fn whitespace_forms() {
    assert_eq!(eval_text("1 +\t2\r\n").ok(), Some(3.0));
    assert_eq!(eval_text("  10*2  ").ok(), Some(20.0));
    assert_eq!(eval_text("10*2").ok(), Some(20.0));
    // Unicode whitespace separates tokens too, as char::is_whitespace does.
    assert_eq!(eval_text("1\u{a0}+\u{2003}2\u{3000}").ok(), Some(3.0));
}

#[test]
fn operand_order_in_the_tree() {
    let post = vec![Token::Number(0), Token::Number(1), Token::Subtract];
    let expr = evaluate(&post).unwrap();
    assert_eq!(
        expr,
        Expr::Apply(Op::Subtract, Box::new(Expr::Num(0)), Box::new(Expr::Num(1)))
    );
}

#[test]
fn empty_expression_fails() {
    assert_eq!(evaluate(&vec![]), Err(EvalError::EmptyExpression));
    assert_eq!(
        eval_text(""),
        Err(ExpressionError::Eval(EvalError::EmptyExpression))
    );
    assert_eq!(
        eval_text("   "),
        Err(ExpressionError::Eval(EvalError::EmptyExpression))
    );
}

#[test]
fn trailing_operand_fails() {
    let post = vec![
        Token::Number(0),
        Token::Number(1),
        Token::Number(2),
        Token::Add,
    ];
    assert_eq!(evaluate(&post), Err(EvalError::IncompleteExpression));
    assert_eq!(
        eval_text("1 2 + 3"),
        Err(ExpressionError::Eval(EvalError::IncompleteExpression))
    );
}

#[test]
fn operator_without_operands_fails() {
    assert_eq!(evaluate(&vec![Token::Add]), Err(EvalError::StackUnderflow));
    // Unary minus is not supported: a leading minus is a binary Subtract
    // token, which is left short of operands.
    assert_eq!(
        eval_text("-4"),
        Err(ExpressionError::Eval(EvalError::StackUnderflow))
    );
    assert_eq!(
        eval_text("3 * -2"),
        Err(ExpressionError::Eval(EvalError::StackUnderflow))
    );
}

#[test]
fn parenthesis_in_postfix_fails() {
    assert_eq!(
        evaluate(&vec![Token::LeftParen]),
        Err(EvalError::UnexpectedParenthesis)
    );
    assert_eq!(
        evaluate(&vec![Token::Number(0), Token::RightParen]),
        Err(EvalError::UnexpectedParenthesis)
    );
}

#[test]
fn unrecognized_character_fails() {
    assert_eq!(
        tokenize("1 & 2"),
        Err(TokenizeError::InvalidCharacter('&', 2))
    );
    assert_eq!(
        eval_text("1 & 2"),
        Err(ExpressionError::Tokenize(TokenizeError::InvalidCharacter(
            '&', 2
        )))
    );
}

#[test]
fn invalid_numeric_literal_fails() {
    assert_eq!(
        tokenize("1.2.3"),
        Err(TokenizeError::InvalidNumericLiteral(lit("1.2.3")))
    );
    assert_eq!(
        tokenize("."),
        Err(TokenizeError::InvalidNumericLiteral(lit(".")))
    );
    assert_eq!(
        tokenize("1 + ..2"),
        Err(TokenizeError::InvalidNumericLiteral(lit("..2")))
    );
}

#[test]
fn unmatched_parentheses_fail() {
    let ts = tokenize("(1 + 2").unwrap();
    assert_eq!(
        to_postfix(&ts.tokens),
        Err(ConvertError::UnmatchedLeftParen)
    );
    let ts2 = tokenize("1 + 2)").unwrap();
    assert_eq!(
        to_postfix(&ts2.tokens),
        Err(ConvertError::UnmatchedRightParen)
    );
    assert_eq!(
        eval_text("(1 + 2"),
        Err(ExpressionError::Convert(ConvertError::UnmatchedLeftParen))
    );
    assert_eq!(
        eval_text("1 + 2)"),
        Err(ExpressionError::Convert(ConvertError::UnmatchedRightParen))
    );
}

#[test]
fn division_by_zero_is_permissive() {
    // Native floating-point semantics, as in the reference behavior: no
    // typed division-by-zero failure.
    assert!(eval_text("1 / 0").unwrap().is_infinite());
    assert!(eval_text("0 / 0").unwrap().is_nan());
    assert!(eval_text("5 % 0").unwrap().is_nan());
}

#[test]
fn evaluation_is_repeatable() {
    let first = eval_text("10 * (1 + 2 * 3) + 4").ok();
    let second = eval_text("10 * (1 + 2 * 3) + 4").ok();
    assert_eq!(first, second);
    assert_eq!(first, Some(74.0));
    let a = evaluate_expression("2 ^ 3 ^ 2");
    let b = evaluate_expression("2 ^ 3 ^ 2");
    assert_eq!(a.is_ok(), b.is_ok());
    assert_eq!(a.unwrap(), b.unwrap());
}

#[test]
fn token_characters() {
    for c in ['+', '-', '*', '/', '%', '^', '_', '(', ')'] {
        assert!(is_token(c));
    }
    for c in ['a', '1', '.', ' ', '&', '#'] {
        assert!(!is_token(c));
    }
}

#[test]
fn precedence_ranks() {
    assert_eq!(precedence_rank(&Token::Number(0)), 0);
    assert_eq!(precedence_rank(&Token::Add), 1);
    assert_eq!(precedence_rank(&Token::Subtract), 1);
    assert_eq!(precedence_rank(&Token::Multiply), 2);
    assert_eq!(precedence_rank(&Token::Divide), 2);
    assert_eq!(precedence_rank(&Token::Modulo), 2);
    assert_eq!(precedence_rank(&Token::Power), 3);
    assert_eq!(precedence_rank(&Token::Logarithm), 3);
    assert_eq!(precedence_rank(&Token::LeftParen), 4);
    assert_eq!(precedence_rank(&Token::RightParen), 4);
}
