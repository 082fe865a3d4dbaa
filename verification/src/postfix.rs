use vstd::prelude::*;
use vstd::multiset::Multiset;

use crate::token::{Token, is_operator, precedence_rank, spec_precedence};
use crate::tokenizer::tokens_in_bounds;

verus! {

/// A conversion failure: a `RightParen` with no matching `LeftParen` on the
/// operator stack, or a `LeftParen` still on the stack at end of input.
#[derive(Clone, Copy, PartialEq, Eq, Structural, Debug)]
pub enum ConvertError {
    UnmatchedRightParen,
    UnmatchedLeftParen,
}

/// Handling of a `RightParen`: pop operators from the stack to the output
/// until a `LeftParen` is popped (discarded, not emitted); an empty stack
/// means the parenthesis has no match.
pub open spec fn spec_pop_until_left(stack: Seq<Token>, out: Seq<Token>) -> Result<
    (Seq<Token>, Seq<Token>),
    ConvertError,
>
    decreases stack.len(),
{
    if stack.len() == 0 {
        Err(ConvertError::UnmatchedRightParen)
    } else if stack.last() is LeftParen {
        Ok((stack.drop_last(), out))
    } else {
        spec_pop_until_left(stack.drop_last(), out.push(stack.last()))
    }
}

/// Handling of an operator of precedence `p`: pop operators of precedence at
/// least `p` from the stack to the output, stopping at a `LeftParen` or at a
/// lower-precedence operator.  Popping on equal precedence enforces
/// left-to-right associativity for same-rank operators.
pub open spec fn spec_pop_ge(p: int, stack: Seq<Token>, out: Seq<Token>) -> (Seq<Token>, Seq<
    Token,
>)
    decreases stack.len(),
{
    if stack.len() == 0 {
        (stack, out)
    } else if stack.last() is LeftParen || spec_precedence(stack.last()) < p {
        (stack, out)
    } else {
        spec_pop_ge(p, stack.drop_last(), out.push(stack.last()))
    }
}

/// End of input: pop the remaining stack to the output in order popped (top
/// first); a residual `LeftParen` is an unmatched left parenthesis.
pub open spec fn spec_drain(stack: Seq<Token>, out: Seq<Token>) -> Result<Seq<Token>, ConvertError>
    decreases stack.len(),
{
    if stack.len() == 0 {
        Ok(out)
    } else if stack.last() is LeftParen {
        Err(ConvertError::UnmatchedLeftParen)
    } else {
        spec_drain(stack.drop_last(), out.push(stack.last()))
    }
}

/// The shunting-yard pass from position `i` onward, given the operator stack
/// and the output emitted so far: numbers go straight to the output, a
/// `LeftParen` is pushed unconditionally, a `RightParen` pops to its match,
/// and an operator first pops all stacked operators of precedence at least
/// its own, then is pushed.
pub open spec fn spec_to_postfix_from(
    tokens: Seq<Token>,
    i: int,
    stack: Seq<Token>,
    out: Seq<Token>,
) -> Result<Seq<Token>, ConvertError>
    decreases tokens.len() - i,
{
    if i < 0 || i >= tokens.len() {
        spec_drain(stack, out)
    } else {
        match tokens[i] {
            Token::Number(_) => spec_to_postfix_from(tokens, i + 1, stack, out.push(tokens[i])),
            Token::LeftParen => spec_to_postfix_from(
                tokens,
                i + 1,
                stack.push(Token::LeftParen),
                out,
            ),
            Token::RightParen => match spec_pop_until_left(stack, out) {
                Ok(r) => spec_to_postfix_from(tokens, i + 1, r.0, r.1),
                Err(e) => Err(e),
            },
            _ => {
                let r = spec_pop_ge(spec_precedence(tokens[i]), stack, out);
                spec_to_postfix_from(tokens, i + 1, r.0.push(tokens[i]), r.1)
            },
        }
    }
}

/// What converting an infix token sequence to postfix yields.
pub open spec fn spec_to_postfix(tokens: Seq<Token>) -> Result<Seq<Token>, ConvertError> {
    spec_to_postfix_from(tokens, 0, Seq::empty(), Seq::empty())
}

/// Number of tokens other than parentheses in the suffix of `s` starting at
/// `i`.
pub open spec fn count_non_paren_from(s: Seq<Token>, i: int) -> int
    decreases s.len() - i,
{
    if i < 0 || i >= s.len() {
        0
    } else {
        (if s[i] is LeftParen || s[i] is RightParen {
            0int
        } else {
            1int
        }) + count_non_paren_from(s, i + 1)
    }
}

/// A sequence free of parentheses.
pub open spec fn no_parens(s: Seq<Token>) -> bool {
    forall|k: int|
        0 <= k < s.len() ==> !(#[trigger] s[k] is LeftParen) && !(s[k] is RightParen)
}

/// An operator stack holds `LeftParen` sentinels and operators only.
pub open spec fn stack_ok(stack: Seq<Token>) -> bool {
    forall|k: int|
        0 <= k < stack.len() ==> #[trigger] stack[k] is LeftParen || is_operator(stack[k])
}

/// Number of operators (non-sentinel entries) on an operator stack.
pub open spec fn count_stack_ops(stack: Seq<Token>) -> int
    decreases stack.len(),
{
    if stack.len() == 0 {
        0
    } else {
        count_stack_ops(stack.drop_last()) + (if stack.last() is LeftParen {
            0int
        } else {
            1int
        })
    }
}

/// The multiset of tokens other than parentheses in the suffix of `s`
/// starting at `i`.
pub open spec fn non_paren_multiset_from(s: Seq<Token>, i: int) -> Multiset<Token>
    decreases s.len() - i,
{
    if i < 0 || i >= s.len() {
        Multiset::empty()
    } else if s[i] is LeftParen || s[i] is RightParen {
        non_paren_multiset_from(s, i + 1)
    } else {
        non_paren_multiset_from(s, i + 1).insert(s[i])
    }
}

/// The multiset of operators (non-sentinel entries) on an operator stack.
pub open spec fn stack_ops_multiset(stack: Seq<Token>) -> Multiset<Token>
    decreases stack.len(),
{
    if stack.len() == 0 {
        Multiset::empty()
    } else if stack.last() is LeftParen {
        stack_ops_multiset(stack.drop_last())
    } else {
        stack_ops_multiset(stack.drop_last()).insert(stack.last())
    }
}

proof fn lemma_pop_until_left_props(stack: Seq<Token>, out: Seq<Token>)
    requires
        stack_ok(stack),
        no_parens(out),
    ensures
        spec_pop_until_left(stack, out) matches Ok(r) ==> stack_ok(r.0) && no_parens(r.1)
            && r.1.len() + count_stack_ops(r.0) == out.len() + count_stack_ops(stack)
            && r.1.to_multiset().add(stack_ops_multiset(r.0)) == out.to_multiset().add(
            stack_ops_multiset(stack),
        ),
    decreases stack.len(),
{
    broadcast use vstd::seq_lib::group_to_multiset_ensures;

    if stack.len() == 0 {
    } else if stack.last() is LeftParen {
    } else {
        let top = stack.last();
        lemma_pop_until_left_props(stack.drop_last(), out.push(top));
        assert(out.to_multiset().insert(top).add(stack_ops_multiset(stack.drop_last()))
            =~= out.to_multiset().add(stack_ops_multiset(stack.drop_last()).insert(top)));
    }
}

proof fn lemma_pop_ge_props(p: int, stack: Seq<Token>, out: Seq<Token>)
    requires
        stack_ok(stack),
        no_parens(out),
    ensures
        ({
            let r = spec_pop_ge(p, stack, out);
            stack_ok(r.0) && no_parens(r.1) && r.1.len() + count_stack_ops(r.0) == out.len()
                + count_stack_ops(stack) && r.1.to_multiset().add(stack_ops_multiset(r.0))
                == out.to_multiset().add(stack_ops_multiset(stack))
        }),
    decreases stack.len(),
{
    broadcast use vstd::seq_lib::group_to_multiset_ensures;

    if stack.len() == 0 {
    } else if stack.last() is LeftParen || spec_precedence(stack.last()) < p {
    } else {
        let top = stack.last();
        lemma_pop_ge_props(p, stack.drop_last(), out.push(top));
        assert(out.to_multiset().insert(top).add(stack_ops_multiset(stack.drop_last()))
            =~= out.to_multiset().add(stack_ops_multiset(stack.drop_last()).insert(top)));
    }
}

proof fn lemma_drain_props(stack: Seq<Token>, out: Seq<Token>)
    requires
        stack_ok(stack),
        no_parens(out),
    ensures
        spec_drain(stack, out) matches Ok(res) ==> no_parens(res) && res.len() == out.len()
            + count_stack_ops(stack) && res.to_multiset() == out.to_multiset().add(
            stack_ops_multiset(stack),
        ),
    decreases stack.len(),
{
    broadcast use vstd::seq_lib::group_to_multiset_ensures;

    if stack.len() == 0 {
        assert(out.to_multiset().add(Multiset::<Token>::empty()) =~= out.to_multiset());
    } else if stack.last() is LeftParen {
    } else {
        let top = stack.last();
        lemma_drain_props(stack.drop_last(), out.push(top));
        assert(out.to_multiset().insert(top).add(stack_ops_multiset(stack.drop_last()))
            =~= out.to_multiset().add(stack_ops_multiset(stack.drop_last()).insert(top)));
    }
}

proof fn lemma_to_postfix_from_props(tokens: Seq<Token>, i: int, stack: Seq<Token>, out: Seq<
    Token,
>)
    requires
        0 <= i <= tokens.len(),
        stack_ok(stack),
        no_parens(out),
    ensures
        spec_to_postfix_from(tokens, i, stack, out) matches Ok(res) ==> no_parens(res)
            && res.len() == out.len() + count_stack_ops(stack) + count_non_paren_from(tokens, i)
            && res.to_multiset() == out.to_multiset().add(stack_ops_multiset(stack)).add(
            non_paren_multiset_from(tokens, i),
        ),
    decreases tokens.len() - i,
{
    broadcast use vstd::seq_lib::group_to_multiset_ensures;

    if i >= tokens.len() {
        lemma_drain_props(stack, out);
        assert(out.to_multiset().add(stack_ops_multiset(stack)).add(
            Multiset::<Token>::empty(),
        ) =~= out.to_multiset().add(stack_ops_multiset(stack)));
    } else {
        match tokens[i] {
            Token::Number(_) => {
                let t = tokens[i];
                lemma_to_postfix_from_props(tokens, i + 1, stack, out.push(t));
                assert(out.to_multiset().insert(t).add(stack_ops_multiset(stack)).add(
                    non_paren_multiset_from(tokens, i + 1),
                ) =~= out.to_multiset().add(stack_ops_multiset(stack)).add(
                    non_paren_multiset_from(tokens, i + 1).insert(t),
                ));
            },
            Token::LeftParen => {
                assert(stack.push(Token::LeftParen).drop_last() =~= stack);
                lemma_to_postfix_from_props(tokens, i + 1, stack.push(Token::LeftParen), out);
            },
            Token::RightParen => {
                lemma_pop_until_left_props(stack, out);
                match spec_pop_until_left(stack, out) {
                    Ok(r) => {
                        lemma_to_postfix_from_props(tokens, i + 1, r.0, r.1);
                    },
                    Err(_) => {},
                }
            },
            _ => {
                let t = tokens[i];
                lemma_pop_ge_props(spec_precedence(t), stack, out);
                let r = spec_pop_ge(spec_precedence(t), stack, out);
                assert(r.0.push(t).drop_last() =~= r.0);
                lemma_to_postfix_from_props(tokens, i + 1, r.0.push(t), r.1);
                assert(r.1.to_multiset().add(stack_ops_multiset(r.0).insert(t)).add(
                    non_paren_multiset_from(tokens, i + 1),
                ) =~= r.1.to_multiset().add(stack_ops_multiset(r.0)).add(
                    non_paren_multiset_from(tokens, i + 1).insert(t),
                ));
                assert(out.to_multiset().add(stack_ops_multiset(stack)).add(
                    non_paren_multiset_from(tokens, i + 1).insert(t),
                ) == out.to_multiset().add(stack_ops_multiset(stack)).add(
                    non_paren_multiset_from(tokens, i),
                ));
            },
        }
    }
}

proof fn lemma_count_all_non_paren(tokens: Seq<Token>, i: int)
    requires
        0 <= i <= tokens.len(),
        no_parens(tokens),
    ensures
        count_non_paren_from(tokens, i) == tokens.len() - i,
    decreases tokens.len() - i,
{
    if i < tokens.len() {
        lemma_count_all_non_paren(tokens, i + 1);
    }
}

/// Law: a successful conversion only reorders — its output is exactly the
/// multiset of the input's non-parenthesis tokens, so no token is created
/// and none is dropped apart from the matched parentheses it discards, and
/// the output length equals the number of non-parenthesis input tokens; in
/// particular, for a parenthesis-free input, output and input have equal
/// length.  The output of a successful conversion contains no parenthesis,
/// and the operator stack ends empty: on every `Ok` path, `spec_drain`
/// recurses down to the empty stack, moving each remaining operator to the
/// output.
pub proof fn lemma_to_postfix_preserves_tokens(tokens: Seq<Token>)
    ensures
        spec_to_postfix(tokens) matches Ok(out) ==> no_parens(out) && out.len()
            == count_non_paren_from(tokens, 0) && out.to_multiset() == non_paren_multiset_from(
            tokens,
            0,
        ),
        no_parens(tokens) ==> (spec_to_postfix(tokens) matches Ok(out) ==> out.len()
            == tokens.len()),
{
    broadcast use vstd::seq_lib::group_to_multiset_ensures;

    lemma_to_postfix_from_props(tokens, 0, Seq::empty(), Seq::empty());
    if spec_to_postfix(tokens) is Ok {
        assert(Seq::<Token>::empty().to_multiset() =~= Multiset::<Token>::empty());
        assert(Multiset::<Token>::empty().add(Multiset::<Token>::empty()).add(
            non_paren_multiset_from(tokens, 0),
        ) =~= non_paren_multiset_from(tokens, 0));
    }
    if no_parens(tokens) {
        lemma_count_all_non_paren(tokens, 0);
    }
}

proof fn lemma_non_paren_multiset_member(s: Seq<Token>, i: int, x: Token)
    requires
        0 <= i <= s.len(),
        non_paren_multiset_from(s, i).count(x) > 0,
    ensures
        exists|j: int| i <= j < s.len() && s[j] == x,
    decreases s.len() - i,
{
    if i >= s.len() {
        assert(Multiset::<Token>::empty().count(x) == 0);
    } else if s[i] is LeftParen || s[i] is RightParen {
        lemma_non_paren_multiset_member(s, i + 1, x);
    } else if s[i] == x {
        assert(i <= i < s.len() && s[i] == x);
    } else {
        assert(non_paren_multiset_from(s, i + 1).insert(s[i]).count(x)
            == non_paren_multiset_from(s, i + 1).count(x));
        lemma_non_paren_multiset_member(s, i + 1, x);
    }
}

/// Law: conversion introduces no token, so when every `Number` token of the
/// input refers to an entry of a literal table of length `n`, every `Number`
/// token of a successful conversion's output does too.
pub proof fn lemma_to_postfix_preserves_bounds(tokens: Seq<Token>, n: int)
    requires
        tokens_in_bounds(tokens, n),
    ensures
        spec_to_postfix(tokens) matches Ok(out) ==> tokens_in_bounds(out, n),
{
    broadcast use vstd::seq_lib::group_to_multiset_ensures;

    lemma_to_postfix_preserves_tokens(tokens);
    match spec_to_postfix(tokens) {
        Ok(out) => {
            assert forall|k: int|
                0 <= k < out.len() implies (#[trigger] out[k] matches Token::Number(j) ==> j
                < n) by {
                assert(out.contains(out[k]));
                assert(out.to_multiset().count(out[k]) > 0);
                lemma_non_paren_multiset_member(tokens, 0, out[k]);
            }
        },
        Err(_) => {},
    }
}

/// Pops all stacked operators of precedence at least that of `t`, then
/// pushes `t`.
fn push_operator(t: Token, stack: &mut Vec<Token>, out: &mut Vec<Token>)
    requires
        is_operator(t),
    ensures
        ({
            let r = spec_pop_ge(spec_precedence(t), old(stack)@, old(out)@);
            final(stack)@ == r.0.push(t) && final(out)@ == r.1
        }),
{
    let p = precedence_rank(&t);
    let mut done = false;
    while !done
        invariant
            is_operator(t),
            p as int == spec_precedence(t),
            done ==> spec_pop_ge(spec_precedence(t), old(stack)@, old(out)@) == (stack@, out@),
            !done ==> spec_pop_ge(spec_precedence(t), old(stack)@, old(out)@) == spec_pop_ge(
                spec_precedence(t),
                stack@,
                out@,
            ),
        decreases stack@.len(), (if done { 0int } else { 1int }),
    {
        if stack.len() == 0 {
            done = true;
        } else {
            let top = stack[stack.len() - 1];
            let stop = match top {
                Token::LeftParen => true,
                _ => precedence_rank(&top) < p,
            };
            if stop {
                done = true;
            } else {
                let _ = stack.pop();
                out.push(top);
            }
        }
    }
    stack.push(t);
}

/// Converts an infix token sequence to postfix (Reverse Polish) order with a
/// single forward pass over the input and an explicit operator stack.  The
/// result is pinned down by `spec_to_postfix`, failures included.
pub fn to_postfix(tokens: &Vec<Token>) -> (r: Result<Vec<Token>, ConvertError>)
    ensures
        match r {
            Ok(out) => spec_to_postfix(tokens@) == Ok::<_, ConvertError>(out@),
            Err(e) => spec_to_postfix(tokens@) == Err::<Seq<Token>, _>(e),
        },
{
    let mut stack: Vec<Token> = Vec::new();
    let mut out: Vec<Token> = Vec::new();
    proof {
        assert(stack@ =~= Seq::<Token>::empty());
        assert(out@ =~= Seq::<Token>::empty());
    }
    let mut i: usize = 0;
    while i < tokens.len()
        invariant
            i <= tokens@.len(),
            spec_to_postfix(tokens@) == spec_to_postfix_from(tokens@, i as int, stack@, out@),
        decreases tokens@.len() - i,
    {
        let t = tokens[i];
        match t {
            Token::Number(_) => {
                out.push(t);
            },
            Token::LeftParen => {
                stack.push(t);
            },
            Token::RightParen => {
                let mut matched = false;
                while !matched
                    invariant
                        i < tokens@.len(),
                        tokens@[i as int] is RightParen,
                        matched ==> spec_to_postfix(tokens@) == spec_to_postfix_from(
                            tokens@,
                            i as int + 1,
                            stack@,
                            out@,
                        ),
                        !matched ==> spec_to_postfix(tokens@) == (match spec_pop_until_left(
                            stack@,
                            out@,
                        ) {
                            Ok(r) => spec_to_postfix_from(tokens@, i as int + 1, r.0, r.1),
                            Err(e) => Err(e),
                        }),
                    decreases stack@.len(), (if matched { 0int } else { 1int }),
                {
                    if stack.len() == 0 {
                        return Err(ConvertError::UnmatchedRightParen);
                    }
                    let top = match stack.pop() {
                        Some(x) => x,
                        None => {
                            return Err(ConvertError::UnmatchedRightParen);
                        },
                    };
                    match top {
                        Token::LeftParen => {
                            matched = true;
                        },
                        _ => {
                            out.push(top);
                        },
                    }
                }
            },
            _ => {
                push_operator(t, &mut stack, &mut out);
            },
        }
        i = i + 1;
    }
    while stack.len() > 0
        invariant
            spec_to_postfix(tokens@) == spec_drain(stack@, out@),
        decreases stack@.len(),
    {
        let top = match stack.pop() {
            Some(x) => x,
            None => {
                return Err(ConvertError::UnmatchedLeftParen);
            },
        };
        match top {
            Token::LeftParen => {
                return Err(ConvertError::UnmatchedLeftParen);
            },
            _ => {
                out.push(top);
            },
        }
    }
    Ok(out)
}

} // verus!
