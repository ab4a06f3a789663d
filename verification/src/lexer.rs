//! The lexer: from the characters of a source text to tokens, or to the
//! first character that starts no token.

use vstd::prelude::*;
use vstd::string::*;
use crate::lexicon::{
    advanced, decimal_value, lex_from, literal_value, numeric_run, punctuation, word_char,
    word_kind, word_run, LexErrorView,
};
use crate::text::{chars_of, is_digit, is_letter};
use crate::token::{
    token_views, Keyword, Operator, Position, PositionView, Separator, Token, TokenKind,
    TokenKindView, TokenView, Type,
};

verus! {

/// The first thing in a text that the lexer cannot make a token of.
#[derive(Debug, PartialEq, Eq)]
pub enum LexError {
    /// A character that starts no token.
    UnexpectedCharacter { found: char, position: Position },
    /// A number that is no decimal literal, or one too large for 32 bits.
    InvalidNumber { position: Position },
}

impl View for LexError {
    type V = LexErrorView;

    open spec fn view(&self) -> LexErrorView {
        match self {
            LexError::UnexpectedCharacter { found, position } => {
                LexErrorView::UnexpectedCharacter { found: *found, position: position@ }
            },
            LexError::InvalidNumber { position } => LexErrorView::InvalidNumber {
                position: position@,
            },
        }
    }
}

/// The kind of the token that the word `word` is: a keyword, the name of a
/// type, or else an identifier.
pub fn keyword_or_identifier(word: String) -> (r: TokenKind)
    ensures
        r@ == word_kind(word@),
{
    if word == String::from_str("return") {
        TokenKind::Keyword(Keyword::Return)
    } else if word == String::from_str("int") {
        TokenKind::Type(Type::Int)
    } else if word == String::from_str("void") {
        TokenKind::Type(Type::Void)
    } else {
        TokenKind::Identifier(word)
    }
}

/// The token that the character `c` is all by itself, if it is one.
fn punctuation_kind(c: char) -> (r: Option<TokenKind>)
    ensures
        match r {
            Some(kind) => punctuation(c) == Some(kind@),
            None => punctuation(c) is None,
        },
{
    if c == '(' {
        Some(TokenKind::Separator(Separator::LParen))
    } else if c == ')' {
        Some(TokenKind::Separator(Separator::RParen))
    } else if c == '{' {
        Some(TokenKind::Separator(Separator::LBrace))
    } else if c == '}' {
        Some(TokenKind::Separator(Separator::RBrace))
    } else if c == ';' {
        Some(TokenKind::Separator(Separator::Semi))
    } else if c == '+' {
        Some(TokenKind::Operator(Operator::Plus))
    } else if c == '-' {
        Some(TokenKind::Operator(Operator::Minus))
    } else if c == '*' {
        Some(TokenKind::Operator(Operator::Star))
    } else if c == '/' {
        Some(TokenKind::Operator(Operator::Slash))
    } else {
        None
    }
}

/// The value of a prefix of a digit sequence bounds the value of the whole:
/// if the prefix has no value, neither has the whole; otherwise the whole
/// has no smaller value.
proof fn lemma_decimal_prefix(digits: Seq<char>, k: int)
    requires
        0 <= k <= digits.len(),
    ensures
        decimal_value(digits.take(k)) is None ==> decimal_value(digits) is None,
        decimal_value(digits) matches Some(w) ==> decimal_value(digits.take(k)) matches Some(v)
            && v <= w,
    decreases digits.len() - k,
{
    if k < digits.len() {
        lemma_decimal_prefix(digits.drop_last(), k);
        assert(digits.drop_last().take(k) =~= digits.take(k));
    } else {
        assert(digits.take(k) =~= digits);
    }
}

/// The value of the number literal that the characters from place `from`
/// up to place `to` spell.
pub fn literal_of(chars: &Vec<char>, from: usize, to: usize) -> (r: Option<u32>)
    requires
        from <= to <= chars@.len(),
    ensures
        r == literal_value(chars@.subrange(from as int, to as int)),
{
    let ghost digits = chars@.subrange(from as int, to as int);
    let mut value: u64 = 0;
    let mut i: usize = from;
    while i < to
        invariant
            from <= i <= to <= chars@.len(),
            digits == chars@.subrange(from as int, to as int),
            value <= u32::MAX,
            decimal_value(digits.take(i - from)) == Some(value as nat),
        decreases to - i,
    {
        let c = chars[i];
        proof {
            assert(digits.take(i - from + 1).drop_last() =~= digits.take(i - from));
            assert(digits.take(i - from + 1).last() == c);
            lemma_decimal_prefix(digits, i - from + 1);
        }
        if !is_digit(c) {
            return None;
        }
        let d: u64 = (c as u64) - ('0' as u64);
        let next: u64 = value * 10 + d;
        if next > 0xffff_ffff {
            return None;
        }
        value = next;
        i += 1;
    }
    proof {
        assert(digits.take(to - from) =~= digits);
    }
    Some(value as u32)
}

/// The tokens `done` in front of what the rest of the text stands for.
spec fn tokens_then(done: Seq<TokenView>, rest: Result<Seq<TokenView>, LexErrorView>) -> Result<
    Seq<TokenView>,
    LexErrorView,
> {
    match rest {
        Err(e) => Err(e),
        Ok(tokens) => Ok(done + tokens),
    }
}

/// A lexer over the characters of one source text.
#[derive(Debug)]
pub struct Lexer {
    chars: Vec<char>,
    index: usize,
    pos: Position,
}

impl Lexer {
    /// The characters of the text.
    pub closed spec fn chars(&self) -> Seq<char> {
        self.chars@
    }

    /// The number of characters that have been read.
    pub closed spec fn index(&self) -> int {
        self.index as int
    }

    /// The place that the lexer has counted up to.
    pub closed spec fn position(&self) -> PositionView {
        self.pos@
    }

    /// The lexer stands within its text, and the lines and columns that it
    /// may still count fit in 32 bits.
    pub open spec fn wf(&self) -> bool {
        &&& 0 <= self.index() <= self.chars().len()
        &&& self.position().line + (self.chars().len() - self.index()) <= u32::MAX
        &&& self.position().col + (self.chars().len() - self.index()) <= u32::MAX
    }

    /// A lexer at the start of the text `contents` of the file called
    /// `file`. The text must be short enough for its lines and columns to
    /// be counted in 32 bits.
    pub fn new(file: String, contents: &str) -> (r: Self)
        requires
            contents@.len() < u32::MAX,
        ensures
            r.wf(),
            r.chars() == contents@,
            r.index() == 0,
            r.position() == (PositionView { file: file@, line: 1, col: 1 }),
    {
        Lexer { chars: chars_of(contents), index: 0, pos: Position::new(file) }
    }

    /// Reads the rest of a word whose first character `c` has been read,
    /// and says what the word is.
    pub fn lex_identifier_or_keyword(&mut self, c: char) -> (r: TokenKind)
        requires
            old(self).wf(),
        ensures
            final(self).wf(),
            final(self).chars() == old(self).chars(),
            final(self).index() == old(self).index() + word_run(
                old(self).chars(),
                old(self).index(),
            ),
            final(self).position() == advanced(
                old(self).position(),
                old(self).chars(),
                old(self).index(),
                word_run(old(self).chars(), old(self).index()),
            ),
            r@ == word_kind(
                seq![c] + old(self).chars().subrange(old(self).index(), final(self).index()),
            ),
    {
        let mut word = String::new();
        word.push(c);
        let ghost chars = self.chars@;
        let ghost start = self.index as int;
        let ghost origin = self.pos@;
        assert(word@ =~= seq![c] + chars.subrange(start, start));
        while self.index < self.chars.len() && is_word_char(self.chars[self.index])
            invariant
                self.wf(),
                self.chars@ == chars,
                start <= self.index <= chars.len(),
                word_run(chars, start) == (self.index - start) + word_run(
                    chars,
                    self.index as int,
                ),
                advanced(origin, chars, start, word_run(chars, start)) == advanced(
                    self.pos@,
                    chars,
                    self.index as int,
                    word_run(chars, self.index as int),
                ),
                word@ == seq![c] + chars.subrange(start, self.index as int),
            decreases chars.len() - self.index,
        {
            let next_c = self.chars[self.index];
            word.push(next_c);
            self.pos.advance(next_c);
            self.index += 1;
            assert(word@ =~= seq![c] + chars.subrange(start, self.index as int));
        }
        keyword_or_identifier(word)
    }

    /// Reads the rest of a number whose first character has been read and
    /// stands just before the cursor, and gives the number's value. The
    /// token started at place `start`.
    pub fn lex_number(&mut self, start: &Position) -> (r: Result<TokenKind, LexError>)
        requires
            old(self).wf(),
            old(self).index() >= 1,
        ensures
            final(self).wf(),
            final(self).chars() == old(self).chars(),
            final(self).index() == old(self).index() + numeric_run(
                old(self).chars(),
                old(self).index(),
            ),
            final(self).position() == advanced(
                old(self).position(),
                old(self).chars(),
                old(self).index(),
                numeric_run(old(self).chars(), old(self).index()),
            ),
            match literal_value(
                old(self).chars().subrange(old(self).index() - 1, final(self).index()),
            ) {
                Some(value) => r matches Ok(kind) && kind@ == TokenKindView::IntLit(value),
                None => r matches Err(e) && e@ == (LexErrorView::InvalidNumber {
                    position: start@,
                }),
            },
    {
        let ghost chars = self.chars@;
        let ghost first = self.index as int;
        let ghost origin = self.pos@;
        let from = self.index - 1;
        while self.index < self.chars.len() && self.chars[self.index].is_numeric()
            invariant
                self.wf(),
                self.chars@ == chars,
                first <= self.index <= chars.len(),
                numeric_run(chars, first) == (self.index - first) + numeric_run(
                    chars,
                    self.index as int,
                ),
                advanced(origin, chars, first, numeric_run(chars, first)) == advanced(
                    self.pos@,
                    chars,
                    self.index as int,
                    numeric_run(chars, self.index as int),
                ),
            decreases chars.len() - self.index,
        {
            let next_c = self.chars[self.index];
            self.pos.advance(next_c);
            self.index += 1;
        }
        match literal_of(&self.chars, from, self.index) {
            Some(value) => Ok(TokenKind::IntLit(value)),
            None => Err(LexError::InvalidNumber { position: start.clone() }),
        }
    }

    /// Reads the text to its end and gives its tokens in order, or stops at
    /// the first error.
    pub fn lex(&mut self) -> (r: Result<Vec<Token>, LexError>)
        requires
            old(self).wf(),
        ensures
            final(self).wf(),
            final(self).chars() == old(self).chars(),
            old(self).index() <= final(self).index(),
            match lex_from(old(self).chars(), old(self).index(), old(self).position()) {
                Ok(tokens) => r matches Ok(v) && token_views(v@) == tokens && final(self).index()
                    == final(self).chars().len(),
                Err(e) => r matches Err(x) && x@ == e,
            },
    {
        let mut tokens: Vec<Token> = Vec::new();
        let ghost chars = self.chars@;
        let ghost whole = lex_from(chars, self.index as int, self.pos@);
        assert(token_views(tokens@) =~= Seq::empty());
        assert(whole is Ok ==> Seq::<TokenView>::empty() + whole->Ok_0 =~= whole->Ok_0);
        while self.index < self.chars.len()
            invariant
                self.wf(),
                self.chars@ == chars,
                chars == old(self).chars(),
                old(self).index() <= self.index,
                whole == lex_from(old(self).chars(), old(self).index(), old(self).position()),
                whole == tokens_then(
                    token_views(tokens@),
                    lex_from(chars, self.index as int, self.pos@),
                ),
            decreases chars.len() - self.index,
        {
            let c = self.chars[self.index];
            let ghost i = self.index as int;
            let ghost p = self.pos@;
            let ghost done = token_views(tokens@);
            self.index += 1;
            let start_pos = self.pos.clone();
            let kind = match punctuation_kind(c) {
                Some(kind) => kind,
                None => {
                    if c.is_whitespace() {
                        self.pos.advance(c);
                        continue ;
                    } else if is_letter(c) {
                        let kind = self.lex_identifier_or_keyword(c);
                        proof {
                            assert(seq![c] + chars.subrange(i + 1, self.index as int)
                                =~= chars.subrange(i, self.index as int));
                        }
                        kind
                    } else if c.is_numeric() {
                        self.lex_number(&start_pos)?
                    } else {
                        return Err(
                            LexError::UnexpectedCharacter { found: c, position: start_pos },
                        );
                    }
                },
            };
            let token = Token { kind, pos: start_pos };
            let ghost token_view = token@;
            tokens.push(token);
            proof {
                assert(token_views(tokens@) =~= done.push(token_view));
                let rest = lex_from(chars, self.index as int, self.pos@);
                if rest is Ok {
                    assert(done + (seq![token_view] + rest->Ok_0) =~= done.push(token_view)
                        + rest->Ok_0);
                }
            }
        }
        proof {
            assert(token_views(tokens@) + Seq::<TokenView>::empty() =~= token_views(tokens@));
        }
        Ok(tokens)
    }
}

/// Whether `c` may stand in a word after its first character.
fn is_word_char(c: char) -> (r: bool)
    ensures
        r == word_char(c),
{
    is_letter(c) || is_digit(c) || c == '_'
}

} // verus!
