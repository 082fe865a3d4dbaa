use vstd::prelude::*;

verus! {

/// A lexical token of an arithmetic expression.
///
/// A `Number` token does not carry its numeric value directly: the verified
/// pipeline is purely symbolic, so a number is kept as the text of its literal
/// in a side table (see `TokenStream` in the tokenizer module), and the token
/// refers to that literal by index.  All other variants are single-character
/// operators or parentheses.
#[derive(Clone, Copy, PartialEq, Eq, Structural, Debug)]
pub enum Token {
    Number(usize),
    Add,
    Subtract,
    Multiply,
    Divide,
    Modulo,
    Power,
    Logarithm,
    LeftParen,
    RightParen,
}

/// Precedence rank of a token: numbers are 0 (never compared against an
/// operator), additive operators 1, multiplicative operators 2,
/// exponential/logarithmic operators 3, and parentheses 4 (stack sentinels
/// only, never compared for ordering decisions).
pub open spec fn spec_precedence(t: Token) -> int {
    match t {
        Token::Number(_) => 0,
        Token::Add | Token::Subtract => 1,
        Token::Multiply | Token::Divide | Token::Modulo => 2,
        Token::Power | Token::Logarithm => 3,
        Token::LeftParen | Token::RightParen => 4,
    }
}

/// A binary operator token: everything except numbers and parentheses.
pub open spec fn is_operator(t: Token) -> bool {
    1 <= spec_precedence(t) <= 3
}

/// Total precedence rank over the token variants, as used by the converter
/// for ordering decisions between two operator tokens.
pub fn precedence_rank(t: &Token) -> (r: usize)
    ensures
        r as int == spec_precedence(*t),
{
    match t {
        Token::Number(_) => 0,
        Token::Add | Token::Subtract => 1,
        Token::Multiply | Token::Divide | Token::Modulo => 2,
        Token::Power | Token::Logarithm => 3,
        Token::LeftParen | Token::RightParen => 4,
    }
}

/// The characters that stand for operators or parentheses.
pub open spec fn spec_is_token(c: char) -> bool {
    c == '+' || c == '-' || c == '*' || c == '/' || c == '%' || c == '^' || c == '_' || c == '('
        || c == ')'
}

/// The token denoted by an operator or parenthesis character.
/// Meaningful only when `spec_is_token(c)` holds.
pub open spec fn token_for(c: char) -> Token
    recommends
        spec_is_token(c),
{
    if c == '+' {
        Token::Add
    } else if c == '-' {
        Token::Subtract
    } else if c == '*' {
        Token::Multiply
    } else if c == '/' {
        Token::Divide
    } else if c == '%' {
        Token::Modulo
    } else if c == '^' {
        Token::Power
    } else if c == '_' {
        Token::Logarithm
    } else if c == '(' {
        Token::LeftParen
    } else {
        Token::RightParen
    }
}

/// Whether a character is a single-character operator or parenthesis.
pub fn is_token(c: char) -> (r: bool)
    ensures
        r == spec_is_token(c),
{
    match c {
        '+' | '-' | '*' | '/' | '%' | '^' | '_' | '(' | ')' => true,
        _ => false,
    }
}

/// Appends the token denoted by an operator or parenthesis character.
pub fn add_token(tokens: &mut Vec<Token>, c: char)
    requires
        spec_is_token(c),
    ensures
        final(tokens)@ == old(tokens)@.push(token_for(c)),
{
    let token = if c == '+' {
        Token::Add
    } else if c == '-' {
        Token::Subtract
    } else if c == '*' {
        Token::Multiply
    } else if c == '/' {
        Token::Divide
    } else if c == '%' {
        Token::Modulo
    } else if c == '^' {
        Token::Power
    } else if c == '_' {
        Token::Logarithm
    } else if c == '(' {
        Token::LeftParen
    } else {
        Token::RightParen
    };
    tokens.push(token);
}

} // verus!
