use vstd::prelude::*;

use crate::token::{Token, add_token, is_token, spec_is_token, token_for};

verus! {

/// A tokenizer failure: either a character outside the accepted set, with its
/// character position, or a buffered numeric literal that is not a valid
/// floating-point literal (more than one decimal point, or no digit at all).
#[derive(PartialEq, Eq, Debug)]
pub enum TokenizeError {
    InvalidCharacter(char, usize),
    InvalidNumericLiteral(Vec<char>),
}

/// The mathematical value of a `TokenizeError`.
pub enum TokenizeErrorView {
    InvalidCharacter(char, int),
    InvalidNumericLiteral(Seq<char>),
}

impl View for TokenizeError {
    type V = TokenizeErrorView;

    open spec fn view(&self) -> TokenizeErrorView {
        match self {
            TokenizeError::InvalidCharacter(c, pos) => TokenizeErrorView::InvalidCharacter(
                *c,
                *pos as int,
            ),
            TokenizeError::InvalidNumericLiteral(w) => TokenizeErrorView::InvalidNumericLiteral(
                w@,
            ),
        }
    }
}

/// A token sequence together with the table of numeric literals that its
/// `Number` tokens refer to, in order of first appearance.
#[derive(PartialEq, Eq, Debug)]
pub struct TokenStream {
    pub tokens: Vec<Token>,
    pub literals: Vec<Vec<char>>,
}

/// The views of a table of numeric literals.
pub open spec fn literals_view(lits: Seq<Vec<char>>) -> Seq<Seq<char>> {
    Seq::new(lits.len(), |i: int| lits[i]@)
}

/// Every `Number` token refers to an entry of a literal table of length `n`.
pub open spec fn tokens_in_bounds(tokens: Seq<Token>, n: int) -> bool {
    forall|k: int|
        0 <= k < tokens.len() ==> (#[trigger] tokens[k] matches Token::Number(j) ==> j < n)
}

impl TokenStream {
    /// Well-formedness: every `Number` token indexes into the literal table.
    pub open spec fn wf(self) -> bool {
        tokens_in_bounds(self.tokens@, self.literals@.len() as int)
    }
}

/// An ASCII decimal digit.
pub open spec fn spec_is_digit(c: char) -> bool {
    c == '0' || c == '1' || c == '2' || c == '3' || c == '4' || c == '5' || c == '6' || c == '7'
        || c == '8' || c == '9'
}

/// Whether a character is an ASCII decimal digit.
pub fn is_digit(c: char) -> (r: bool)
    ensures
        r == spec_is_digit(c),
{
    match c {
        '0' | '1' | '2' | '3' | '4' | '5' | '6' | '7' | '8' | '9' => true,
        _ => false,
    }
}

/// Whitespace: the characters with Unicode's White_Space property, the set
/// that `char::is_whitespace` recognizes.
pub open spec fn spec_is_space(c: char) -> bool {
    c == ' ' || c == '\t' || c == '\n' || c == '\u{b}' || c == '\u{c}' || c == '\r' || c
        == '\u{85}' || c == '\u{a0}' || c == '\u{1680}' || c == '\u{2000}' || c == '\u{2001}' || c
        == '\u{2002}' || c == '\u{2003}' || c == '\u{2004}' || c == '\u{2005}' || c == '\u{2006}'
        || c == '\u{2007}' || c == '\u{2008}' || c == '\u{2009}' || c == '\u{200a}' || c
        == '\u{2028}' || c == '\u{2029}' || c == '\u{202f}' || c == '\u{205f}' || c == '\u{3000}'
}

/// Whether a character is whitespace (Unicode White_Space).
pub fn is_space(c: char) -> (r: bool)
    ensures
        r == spec_is_space(c),
{
    match c {
        ' ' | '\t' | '\n' | '\u{b}' | '\u{c}' | '\r' | '\u{85}' | '\u{a0}' | '\u{1680}'
            | '\u{2000}' | '\u{2001}' | '\u{2002}' | '\u{2003}' | '\u{2004}' | '\u{2005}'
            | '\u{2006}' | '\u{2007}' | '\u{2008}' | '\u{2009}' | '\u{200a}' | '\u{2028}'
            | '\u{2029}' | '\u{202f}' | '\u{205f}' | '\u{3000}' => true,
        _ => false,
    }
}

/// Number of decimal points in the suffix of `w` starting at `i`.
pub open spec fn count_dots(w: Seq<char>, i: int) -> int
    decreases w.len() - i,
{
    if i < 0 || i >= w.len() {
        0
    } else {
        (if w[i] == '.' {
            1int
        } else {
            0int
        }) + count_dots(w, i + 1)
    }
}

/// Number of ASCII digits in the suffix of `w` starting at `i`.
pub open spec fn count_digits(w: Seq<char>, i: int) -> int
    decreases w.len() - i,
{
    if i < 0 || i >= w.len() {
        0
    } else {
        (if spec_is_digit(w[i]) {
            1int
        } else {
            0int
        }) + count_digits(w, i + 1)
    }
}

/// A buffered literal (made of digits and decimal points) parses as a
/// floating-point literal exactly when it has at least one digit and at most
/// one decimal point.
pub open spec fn valid_number_literal(w: Seq<char>) -> bool {
    count_digits(w, 0) > 0 && count_dots(w, 0) <= 1
}

/// Flushing the pending literal buffer `w`: an empty buffer is a no-op, a
/// valid literal is appended to the table and a `Number` token referring to
/// it is emitted, and anything else is an `InvalidNumericLiteral` failure.
pub open spec fn spec_flush(
    toks: Seq<Token>,
    lits: Seq<Seq<char>>,
    w: Seq<char>,
) -> Result<(Seq<Token>, Seq<Seq<char>>), TokenizeErrorView> {
    if w.len() == 0 {
        Ok((toks, lits))
    } else if valid_number_literal(w) {
        Ok((toks.push(Token::Number(lits.len() as usize)), lits.push(w)))
    } else {
        Err(TokenizeErrorView::InvalidNumericLiteral(w))
    }
}

/// The tokenizer's scan from position `i` onward, given the tokens and
/// literals emitted so far and the pending literal buffer `w`: digits and
/// decimal points accumulate in the buffer, an operator or parenthesis
/// character flushes the buffer and then emits its token, whitespace only
/// flushes the buffer, and any other character is an `InvalidCharacter`
/// failure.  The end of the input flushes the remaining buffer.
pub open spec fn spec_tokenize_from(
    text: Seq<char>,
    i: int,
    toks: Seq<Token>,
    lits: Seq<Seq<char>>,
    w: Seq<char>,
) -> Result<(Seq<Token>, Seq<Seq<char>>), TokenizeErrorView>
    decreases text.len() - i,
{
    if i < 0 || i >= text.len() {
        spec_flush(toks, lits, w)
    } else {
        let c = text[i];
        if spec_is_digit(c) || c == '.' {
            spec_tokenize_from(text, i + 1, toks, lits, w.push(c))
        } else if spec_is_token(c) {
            match spec_flush(toks, lits, w) {
                Ok(r) => spec_tokenize_from(text, i + 1, r.0.push(token_for(c)), r.1, Seq::empty()),
                Err(e) => Err(e),
            }
        } else if spec_is_space(c) {
            match spec_flush(toks, lits, w) {
                Ok(r) => spec_tokenize_from(text, i + 1, r.0, r.1, Seq::empty()),
                Err(e) => Err(e),
            }
        } else {
            Err(TokenizeErrorView::InvalidCharacter(c, i))
        }
    }
}

/// What tokenizing a text yields: the token sequence and the literal table,
/// or the first failure.
pub open spec fn spec_tokenize(text: Seq<char>) -> Result<
    (Seq<Token>, Seq<Seq<char>>),
    TokenizeErrorView,
> {
    spec_tokenize_from(text, 0, Seq::empty(), Seq::empty(), Seq::empty())
}

proof fn lemma_literals_view_push(lits: Seq<Vec<char>>, w: Vec<char>)
    ensures
        literals_view(lits.push(w)) == literals_view(lits).push(w@),
{
    assert(literals_view(lits.push(w)) =~= literals_view(lits).push(w@));
}

/// Flushes the pending literal buffer: on a non-empty valid literal, appends
/// it to the table and emits a `Number` token for it; returns the emptied
/// buffer, or the `InvalidNumericLiteral` failure, leaving the tokens and
/// the table untouched.  The buffer holds digits and decimal points only —
/// that is all the tokenizer ever puts in it, and on that domain a word
/// parses as a floating-point literal exactly when `valid_number_literal`
/// holds.
pub fn add_number(tokens: &mut Vec<Token>, literals: &mut Vec<Vec<char>>, word: Vec<char>) -> (r:
    Result<Vec<char>, TokenizeError>)
    requires
        forall|k: int|
            0 <= k < word@.len() ==> spec_is_digit(#[trigger] word@[k]) || word@[k] == '.',
    ensures
        match r {
            Ok(w2) => w2@.len() == 0 && spec_flush(
                old(tokens)@,
                literals_view(old(literals)@),
                word@,
            ) == Ok::<_, TokenizeErrorView>(
                (final(tokens)@, literals_view(final(literals)@)),
            ) && (tokens_in_bounds(old(tokens)@, old(literals)@.len() as int)
                ==> tokens_in_bounds(final(tokens)@, final(literals)@.len() as int)),
            Err(e) => spec_flush(old(tokens)@, literals_view(old(literals)@), word@) == Err::<
                (Seq<Token>, Seq<Seq<char>>),
                _,
            >(e@) && final(tokens)@ == old(tokens)@ && literals_view(final(literals)@)
                == literals_view(old(literals)@),
        },
{
    if word.len() == 0 {
        return Ok(word);
    }
    let mut digits: usize = 0;
    let mut dots: usize = 0;
    let mut j: usize = 0;
    while j < word.len()
        invariant
            j <= word@.len(),
            digits <= j,
            dots <= j,
            count_digits(word@, 0) == digits + count_digits(word@, j as int),
            count_dots(word@, 0) == dots + count_dots(word@, j as int),
        decreases word@.len() - j,
    {
        let c = word[j];
        if is_digit(c) {
            digits = digits + 1;
        }
        if c == '.' {
            dots = dots + 1;
        }
        j = j + 1;
    }
    assert(count_digits(word@, j as int) == 0);
    assert(count_dots(word@, j as int) == 0);
    if digits == 0 || dots > 1 {
        return Err(TokenizeError::InvalidNumericLiteral(word));
    }
    let idx = literals.len();
    tokens.push(Token::Number(idx));
    let ghost lits_before = literals@;
    let ghost wvec = word;
    literals.push(word);
    proof {
        lemma_literals_view_push(lits_before, wvec);
        if tokens_in_bounds(old(tokens)@, old(literals)@.len() as int) {
            assert forall|k: int|
                0 <= k < tokens@.len() implies (#[trigger] tokens@[k] matches Token::Number(j)
                ==> j < literals@.len() as int) by {
                if k < tokens@.len() - 1 {
                    assert(tokens@[k] == old(tokens)@[k]);
                }
            }
        }
    }
    Ok(Vec::new())
}

/// Scans expression text into a token sequence with its literal table.
///
/// Exactly the characters of the accepted set are recognized: ASCII digits
/// and `.` accumulate a numeric literal, whitespace separates tokens, and
/// `+ - * / % ^ _ ( )` stand for the operators and parentheses.  The result
/// is pinned down by `spec_tokenize`, failures included.
pub fn tokenize(text: &str) -> (r: Result<TokenStream, TokenizeError>)
    ensures
        match r {
            Ok(ts) => spec_tokenize(text@) == Ok::<_, TokenizeErrorView>(
                (ts.tokens@, literals_view(ts.literals@)),
            ) && ts.wf(),
            Err(e) => spec_tokenize(text@) == Err::<(Seq<Token>, Seq<Seq<char>>), _>(e@),
        },
{
    let n = text.unicode_len();
    let mut tokens: Vec<Token> = Vec::new();
    let mut literals: Vec<Vec<char>> = Vec::new();
    let mut word: Vec<char> = Vec::new();
    proof {
        assert(tokens@ =~= Seq::<Token>::empty());
        assert(literals_view(literals@) =~= Seq::<Seq<char>>::empty());
        assert(word@ =~= Seq::<char>::empty());
    }
    let mut i: usize = 0;
    while i < n
        invariant
            i <= n,
            n == text@.len(),
            spec_tokenize(text@) == spec_tokenize_from(
                text@,
                i as int,
                tokens@,
                literals_view(literals@),
                word@,
            ),
            tokens_in_bounds(tokens@, literals@.len() as int),
            forall|k: int|
                0 <= k < word@.len() ==> spec_is_digit(#[trigger] word@[k]) || word@[k] == '.',
        decreases n - i,
    {
        let c = text.get_char(i);
        if is_digit(c) || c == '.' {
            word.push(c);
        } else if is_token(c) {
            let ghost toks0 = tokens@;
            let ghost lits0 = literals_view(literals@);
            let ghost w0 = word@;
            word = match add_number(&mut tokens, &mut literals, word) {
                Ok(w2) => w2,
                Err(e) => {
                    return Err(e);
                },
            };
            assert(word@ =~= Seq::<char>::empty());
            let ghost toks1 = tokens@;
            let ghost nlits = literals@.len() as int;
            add_token(&mut tokens, c);
            proof {
                assert(!(token_for(c) is Number));
                assert forall|k: int|
                    0 <= k < tokens@.len() implies (#[trigger] tokens@[k] matches Token::Number(j)
                    ==> j < literals@.len() as int) by {
                    if k < tokens@.len() - 1 {
                        assert(tokens@[k] == toks1[k]);
                        assert(tokens_in_bounds(toks1, nlits));
                    } else {
                        assert(tokens@[k] == token_for(c));
                    }
                }
            }
        } else if is_space(c) {
            word = match add_number(&mut tokens, &mut literals, word) {
                Ok(w2) => w2,
                Err(e) => {
                    return Err(e);
                },
            };
            assert(word@ =~= Seq::<char>::empty());
        } else {
            return Err(TokenizeError::InvalidCharacter(c, i));
        }
        i = i + 1;
    }
    if let Err(e) = add_number(&mut tokens, &mut literals, word) {
        return Err(e);
    }
    Ok(TokenStream { tokens, literals })
}

} // verus!
