//! What the lexer computes, as mathematics: which tokens, or which error,
//! a sequence of characters stands for.
//!
//! A token's place is the place that the lexer has counted up to when the
//! token starts. The count moves on one character for each white-space
//! character and for each character of a word or a number after its first.

use vstd::prelude::*;
use crate::text::{digit, letter, numeric, white_space};
use crate::token::{
    Keyword, Operator, PositionView, Separator, TokenKindView, TokenView, Type,
};

verus! {

/// A lexical error as a mathematical value.
pub enum LexErrorView {
    UnexpectedCharacter { found: char, position: PositionView },
    InvalidNumber { position: PositionView },
}

/// The token that a character is all by itself, if it is one.
pub open spec fn punctuation(c: char) -> Option<TokenKindView> {
    if c == '(' {
        Some(TokenKindView::Separator(Separator::LParen))
    } else if c == ')' {
        Some(TokenKindView::Separator(Separator::RParen))
    } else if c == '{' {
        Some(TokenKindView::Separator(Separator::LBrace))
    } else if c == '}' {
        Some(TokenKindView::Separator(Separator::RBrace))
    } else if c == ';' {
        Some(TokenKindView::Separator(Separator::Semi))
    } else if c == '+' {
        Some(TokenKindView::Operator(Operator::Plus))
    } else if c == '-' {
        Some(TokenKindView::Operator(Operator::Minus))
    } else if c == '*' {
        Some(TokenKindView::Operator(Operator::Star))
    } else if c == '/' {
        Some(TokenKindView::Operator(Operator::Slash))
    } else {
        None
    }
}

/// Whether `c` may stand in a word after its first character: a letter, a
/// digit or an underscore.
pub open spec fn word_char(c: char) -> bool {
    letter(c) || digit(c) || c == '_'
}

/// The number of characters from place `i` on that may all stand in a word.
pub open spec fn word_run(chars: Seq<char>, i: int) -> nat
    decreases chars.len() - i,
{
    if 0 <= i < chars.len() && word_char(chars[i]) {
        1 + word_run(chars, i + 1)
    } else {
        0
    }
}

/// The number of characters from place `i` on that are all numeric.
pub open spec fn numeric_run(chars: Seq<char>, i: int) -> nat
    decreases chars.len() - i,
{
    if 0 <= i < chars.len() && numeric(chars[i]) {
        1 + numeric_run(chars, i + 1)
    } else {
        0
    }
}

/// The place counted up to after the `count` characters from place `from`
/// on, starting at `p`.
pub open spec fn advanced(p: PositionView, chars: Seq<char>, from: int, count: nat) -> PositionView
    decreases count,
{
    if count == 0 {
        p
    } else {
        advanced(p.after(chars[from]), chars, from + 1, (count - 1) as nat)
    }
}

/// What a word is: a keyword, the name of a type, or else an identifier.
pub open spec fn word_kind(word: Seq<char>) -> TokenKindView {
    if word == "return"@ {
        TokenKindView::Keyword(Keyword::Return)
    } else if word == "int"@ {
        TokenKindView::Type(Type::Int)
    } else if word == "void"@ {
        TokenKindView::Type(Type::Void)
    } else {
        TokenKindView::Identifier(word)
    }
}

/// The number that a digit stands for.
pub open spec fn digit_value(c: char) -> nat {
    (c as nat - '0' as nat) as nat
}

/// The number that a sequence of digits stands for in decimal notation, if
/// all its characters are digits `0` to `9`. No digits at all stand for zero.
pub open spec fn decimal_value(digits: Seq<char>) -> Option<nat>
    decreases digits.len(),
{
    if digits.len() == 0 {
        Some(0)
    } else {
        match decimal_value(digits.drop_last()) {
            None => None,
            Some(v) => if digit(digits.last()) {
                Some(v * 10 + digit_value(digits.last()))
            } else {
                None
            },
        }
    }
}

/// The value of a number literal: its decimal value, if it has one and
/// that fits in 32 bits.
pub open spec fn literal_value(digits: Seq<char>) -> Option<u32> {
    match decimal_value(digits) {
        Some(v) => if v <= u32::MAX {
            Some(v as u32)
        } else {
            None
        },
        None => None,
    }
}

/// The token `first` in front of what the rest of the text stands for.
pub open spec fn token_then(first: TokenView, rest: Result<Seq<TokenView>, LexErrorView>) -> Result<
    Seq<TokenView>,
    LexErrorView,
> {
    match rest {
        Err(e) => Err(e),
        Ok(tokens) => Ok(seq![first] + tokens),
    }
}

/// The tokens that the characters from place `i` on stand for, when the
/// lexer has counted up to place `p`.
///
/// A punctuation character is a token. White space is passed over. A
/// letter starts a word, which runs as far as letters, digits and
/// underscores go. Any other numeric character starts a number, which runs
/// as far as numeric characters go and must be a decimal literal that fits
/// in 32 bits. Any other character is an error.
pub open spec fn lex_from(chars: Seq<char>, i: int, p: PositionView) -> Result<
    Seq<TokenView>,
    LexErrorView,
>
    decreases chars.len() - i,
    via lex_from_terminates
{
    if !(0 <= i < chars.len()) {
        Ok(Seq::empty())
    } else {
        let c = chars[i];
        if punctuation(c) is Some {
            token_then(
                TokenView { kind: punctuation(c)->Some_0, pos: p },
                lex_from(chars, i + 1, p),
            )
        } else if white_space(c) {
            lex_from(chars, i + 1, p.after(c))
        } else if letter(c) {
            let n = word_run(chars, i + 1);
            token_then(
                TokenView { kind: word_kind(chars.subrange(i, i + 1 + n)), pos: p },
                lex_from(chars, i + 1 + n, advanced(p, chars, i + 1, n)),
            )
        } else if numeric(c) {
            let n = numeric_run(chars, i + 1);
            match literal_value(chars.subrange(i, i + 1 + n)) {
                None => Err(LexErrorView::InvalidNumber { position: p }),
                Some(value) => token_then(
                    TokenView { kind: TokenKindView::IntLit(value), pos: p },
                    lex_from(chars, i + 1 + n, advanced(p, chars, i + 1, n)),
                ),
            }
        } else {
            Err(LexErrorView::UnexpectedCharacter { found: c, position: p })
        }
    }
}

/// Each token ends within the text, so what is left to read gets shorter.
#[via_fn]
proof fn lex_from_terminates(chars: Seq<char>, i: int, p: PositionView) {
    if 0 <= i < chars.len() {
        lemma_word_run_ends(chars, i + 1);
        lemma_numeric_run_ends(chars, i + 1);
    }
}

/// A run of word characters ends within the text.
pub proof fn lemma_word_run_ends(chars: Seq<char>, i: int)
    requires
        0 <= i <= chars.len(),
    ensures
        i + word_run(chars, i) <= chars.len(),
    decreases chars.len() - i,
{
    if i < chars.len() && word_char(chars[i]) {
        lemma_word_run_ends(chars, i + 1);
    }
}

/// A run of numeric characters ends within the text.
pub proof fn lemma_numeric_run_ends(chars: Seq<char>, i: int)
    requires
        0 <= i <= chars.len(),
    ensures
        i + numeric_run(chars, i) <= chars.len(),
    decreases chars.len() - i,
{
    if i < chars.len() && numeric(chars[i]) {
        lemma_numeric_run_ends(chars, i + 1);
    }
}

/// The tokens that the text `contents` of the file called `file` stands
/// for. The count of places starts at line one, column one.
pub open spec fn lex_text(file: Seq<char>, contents: Seq<char>) -> Result<
    Seq<TokenView>,
    LexErrorView,
> {
    lex_from(contents, 0, PositionView { file, line: 1, col: 1 })
}

} // verus!
