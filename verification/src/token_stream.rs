//! A cursor over a sequence of tokens. The tokens are read-only and are
//! consumed strictly from left to right, with one token of lookahead.

use vstd::prelude::*;
use crate::grammar::{expect_any_at, expect_at, identifier_at};
use crate::parse_error::{kind_views, Expected, ParseError, ParseErrorView};
use crate::token::{token_views, Token, TokenKind, TokenView};

verus! {

/// A place in a borrowed sequence of tokens.
#[derive(Debug)]
pub struct TokenStream<'a> {
    tokens: &'a [Token],
    position: usize,
}

impl<'a> TokenStream<'a> {
    /// The cursor never stands beyond the end of its tokens.
    pub open spec fn wf(&self) -> bool {
        0 <= self.position() <= self.tokens().len()
    }

    /// All the tokens of the stream, read or not.
    pub closed spec fn tokens(&self) -> Seq<TokenView> {
        token_views(self.tokens@)
    }

    /// The number of tokens that have been consumed.
    pub closed spec fn position(&self) -> int {
        self.position as int
    }

    /// The place one token further, or the end if the cursor stands there.
    pub open spec fn advanced(&self) -> int {
        if self.position() < self.tokens().len() {
            self.position() + 1
        } else {
            self.position()
        }
    }

    /// A cursor at the first of `tokens`.
    pub fn new(tokens: &'a [Token]) -> (r: Self)
        ensures
            r.wf(),
            r.tokens() == token_views(tokens@),
            r.position() == 0,
    {
        TokenStream { tokens, position: 0 }
    }

    /// The next token, which stays in the stream.
    pub fn peek(&self) -> (r: Option<&'a Token>)
        requires
            self.wf(),
        ensures
            self.position() <= self.tokens().len(),
            match r {
                Some(t) => self.position() < self.tokens().len() && t@
                    == self.tokens()[self.position()],
                None => self.position() == self.tokens().len(),
            },
    {
        if self.position < self.tokens.len() {
            Some(&self.tokens[self.position])
        } else {
            None
        }
    }

    /// The next token, which is consumed. At the end nothing is consumed.
    pub fn next(&mut self) -> (r: Option<&'a Token>)
        requires
            old(self).wf(),
        ensures
            final(self).wf(),
            final(self).tokens() == old(self).tokens(),
            final(self).position() == old(self).advanced(),
            old(self).position() <= old(self).tokens().len(),
            match r {
                Some(t) => old(self).position() < old(self).tokens().len() && t@ == old(self).tokens()[old(self).position()],
                None => old(self).position() == old(self).tokens().len(),
            },
    {
        if self.position < self.tokens.len() {
            let t = &self.tokens[self.position];
            self.position += 1;
            Some(t)
        } else {
            None
        }
    }

    /// Consumes the next token and asks that it be of kind `expected`.
    pub fn expect(&mut self, expected: TokenKind) -> (r: Result<(), ParseError>)
        requires
            old(self).wf(),
        ensures
            final(self).wf(),
            final(self).tokens() == old(self).tokens(),
            final(self).position() == old(self).advanced(),
            match r {
                Ok(_) => expect_at(old(self).tokens(), old(self).position(), expected@) is Ok,
                Err(e) => expect_at(old(self).tokens(), old(self).position(), expected@) == Err::<
                    (),
                    ParseErrorView,
                >(e@),
            },
    {
        match self.next() {
            Some(token) => {
                if token.kind.same_as(&expected) {
                    Ok(())
                } else {
                    Err(
                        ParseError::UnexpectedToken {
                            expected: Expected::Kind(expected),
                            found: token.kind.clone(),
                            position: token.pos.clone(),
                        },
                    )
                }
            },
            None => Err(ParseError::UnexpectedEndOfInput { expected: Expected::Kind(expected) }),
        }
    }

    /// Consumes the next token and asks that its kind be one of `expected`.
    pub fn expect_any_of(&mut self, expected: &[TokenKind]) -> (r: Result<(), ParseError>)
        requires
            old(self).wf(),
        ensures
            final(self).wf(),
            final(self).tokens() == old(self).tokens(),
            final(self).position() == old(self).advanced(),
            match r {
                Ok(_) => expect_any_at(
                    old(self).tokens(),
                    old(self).position(),
                    kind_views(expected@),
                ) is Ok,
                Err(e) => expect_any_at(
                    old(self).tokens(),
                    old(self).position(),
                    kind_views(expected@),
                ) == Err::<(), ParseErrorView>(e@),
            },
    {
        let ghost wanted = kind_views(expected@);
        let mut copies: Vec<TokenKind> = Vec::new();
        match self.next() {
            Some(token) => {
                let mut found = false;
                let mut i: usize = 0;
                while i < expected.len()
                    invariant
                        i <= expected.len(),
                        wanted == kind_views(expected@),
                        copies@.len() == i,
                        kind_views(copies@) == wanted.take(i as int),
                        found == (exists|j: int| 0 <= j < i && #[trigger] wanted[j] == token@.kind),
                    decreases expected.len() - i,
                {
                    if expected[i].same_as(&token.kind) {
                        found = true;
                    }
                    copies.push(expected[i].clone());
                    proof {
                        assert(wanted.take(i + 1) =~= wanted.take(i as int).push(wanted[i as int]));
                        assert(kind_views(copies@) =~= wanted.take(i + 1));
                        if wanted[i as int] == token@.kind {
                            assert(exists|j: int|
                                0 <= j < i + 1 && #[trigger] wanted[j] == token@.kind);
                        }
                    }
                    i += 1;
                }
                proof {
                    assert(wanted.take(i as int) =~= wanted);
                }
                if found {
                    Ok(())
                } else {
                    Err(
                        ParseError::UnexpectedToken {
                            expected: Expected::AnyOf(copies),
                            found: token.kind.clone(),
                            position: token.pos.clone(),
                        },
                    )
                }
            },
            None => {
                let mut i: usize = 0;
                while i < expected.len()
                    invariant
                        i <= expected.len(),
                        wanted == kind_views(expected@),
                        copies@.len() == i,
                        kind_views(copies@) == wanted.take(i as int),
                    decreases expected.len() - i,
                {
                    copies.push(expected[i].clone());
                    proof {
                        assert(wanted.take(i + 1) =~= wanted.take(i as int).push(wanted[i as int]));
                        assert(kind_views(copies@) =~= wanted.take(i + 1));
                    }
                    i += 1;
                }
                proof {
                    assert(wanted.take(i as int) =~= wanted);
                }
                Err(ParseError::UnexpectedEndOfInput { expected: Expected::AnyOf(copies) })
            },
        }
    }

    /// Consumes the next token and asks that it be an identifier, whose name
    /// is returned.
    pub fn expect_identifier(&mut self) -> (r: Result<String, ParseError>)
        requires
            old(self).wf(),
        ensures
            final(self).wf(),
            final(self).tokens() == old(self).tokens(),
            final(self).position() == old(self).advanced(),
            match r {
                Ok(name) => identifier_at(old(self).tokens(), old(self).position()) == Ok::<
                    Seq<char>,
                    ParseErrorView,
                >(name@),
                Err(e) => identifier_at(old(self).tokens(), old(self).position()) == Err::<
                    Seq<char>,
                    ParseErrorView,
                >(e@),
            },
    {
        match self.next() {
            Some(token) => match &token.kind {
                TokenKind::Identifier(name) => Ok(name.clone()),
                _ => Err(
                    ParseError::UnexpectedToken {
                        expected: Expected::Identifier,
                        found: token.kind.clone(),
                        position: token.pos.clone(),
                    },
                ),
            },
            None => Err(ParseError::UnexpectedEndOfInput { expected: Expected::Identifier }),
        }
    }
}

} // verus!
