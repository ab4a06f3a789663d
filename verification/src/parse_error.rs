//! The ways in which parsing fails. The first violation ends the parse:
//! there is no recovery and no partial result.

use vstd::prelude::*;
use crate::token::{Position, PositionView, TokenKind, TokenKindView};

verus! {

/// What the parser was looking for, as a mathematical value.
pub enum ExpectedView {
    Type,
    Identifier,
    Statement,
    Kind(TokenKindView),
    AnyOf(Seq<TokenKindView>),
}

/// What the parser was looking for when it met something else.
#[derive(Debug, PartialEq, Eq)]
pub enum Expected {
    /// The name of a type.
    Type,
    /// An identifier.
    Identifier,
    /// A statement, or the brace that closes a body.
    Statement,
    /// A token of exactly this kind.
    Kind(TokenKind),
    /// A token of one of these kinds.
    AnyOf(Vec<TokenKind>),
}

/// The views of a sequence of token kinds, in order.
pub open spec fn kind_views(kinds: Seq<TokenKind>) -> Seq<TokenKindView> {
    kinds.map_values(|k: TokenKind| k@)
}

impl View for Expected {
    type V = ExpectedView;

    open spec fn view(&self) -> ExpectedView {
        match self {
            Expected::Type => ExpectedView::Type,
            Expected::Identifier => ExpectedView::Identifier,
            Expected::Statement => ExpectedView::Statement,
            Expected::Kind(k) => ExpectedView::Kind(k@),
            Expected::AnyOf(ks) => ExpectedView::AnyOf(kind_views(ks@)),
        }
    }
}

/// Why a run of operands and operators is no expression.
#[derive(Clone, Copy, Debug, PartialEq, Eq, Structural)]
pub enum InvalidReason {
    /// An operator found fewer than two operands to combine.
    NotEnoughOperands,
    /// More than one value was left when the expression ended.
    TooManyOperands,
}

/// A parse error as a mathematical value.
pub enum ParseErrorView {
    UnexpectedToken { expected: ExpectedView, found: TokenKindView, position: PositionView },
    UnexpectedEndOfInput { expected: ExpectedView },
    MismatchedParentheses { at: Option<PositionView> },
    InvalidExpression { reason: InvalidReason, at: Option<PositionView> },
    Unimplemented { found: TokenKindView, position: PositionView },
}

/// The view of a place that may be absent.
pub open spec fn optional_position_view(position: Option<Position>) -> Option<PositionView> {
    match position {
        Some(p) => Some(p@),
        None => None,
    }
}

/// The error `e` with `position` for its place, if it is an error of an
/// expression's parentheses or operands; any other error as it is.
pub open spec fn located(e: ParseErrorView, position: Option<PositionView>) -> ParseErrorView {
    match e {
        ParseErrorView::MismatchedParentheses { .. } => ParseErrorView::MismatchedParentheses {
            at: position,
        },
        ParseErrorView::InvalidExpression { reason, .. } => ParseErrorView::InvalidExpression {
            reason,
            at: position,
        },
        _ => e,
    }
}

/// The first violation that the parser met. An error that was noticed at a
/// token carries the place of that token.
#[derive(Debug, PartialEq, Eq)]
pub enum ParseError {
    /// A token other than the one that the grammar asks for at its place.
    UnexpectedToken { expected: Expected, found: TokenKind, position: Position },
    /// The tokens ended where the grammar asks for one more.
    UnexpectedEndOfInput { expected: Expected },
    /// A closing parenthesis with nothing open, or an opening one that is
    /// never closed. The place is that of the token at which this was
    /// noticed; there is none if the tokens had ended.
    MismatchedParentheses { at: Option<Position> },
    /// Operands and operators that do not combine into exactly one value.
    /// The place is that of the token at which this was noticed; there is
    /// none if the tokens had ended.
    InvalidExpression { reason: InvalidReason, at: Option<Position> },
    /// A token that starts no statement of the language.
    Unimplemented { found: TokenKind, position: Position },
}

impl View for ParseError {
    type V = ParseErrorView;

    open spec fn view(&self) -> ParseErrorView {
        match self {
            ParseError::UnexpectedToken { expected, found, position } => {
                ParseErrorView::UnexpectedToken {
                    expected: expected@,
                    found: found@,
                    position: position@,
                }
            },
            ParseError::UnexpectedEndOfInput { expected } => ParseErrorView::UnexpectedEndOfInput {
                expected: expected@,
            },
            ParseError::MismatchedParentheses { at } => ParseErrorView::MismatchedParentheses {
                at: optional_position_view(*at),
            },
            ParseError::InvalidExpression { reason, at } => ParseErrorView::InvalidExpression {
                reason: *reason,
                at: optional_position_view(*at),
            },
            ParseError::Unimplemented { found, position } => ParseErrorView::Unimplemented {
                found: found@,
                position: position@,
            },
        }
    }
}

impl ParseError {
    /// The error with `position` for its place, if it is an error of an
    /// expression's parentheses or operands; any other error as it is.
    pub fn located(self, position: Option<Position>) -> (r: ParseError)
        ensures
            r@ == located(self@, optional_position_view(position)),
    {
        match self {
            ParseError::MismatchedParentheses { at: _ } => {
                ParseError::MismatchedParentheses { at: position }
            },
            ParseError::InvalidExpression { reason, at: _ } => {
                ParseError::InvalidExpression { reason, at: position }
            },
            other => other,
        }
    }
}

} // verus!
