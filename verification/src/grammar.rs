//! What the parser computes, as mathematics: each function here reads a
//! sequence of tokens from a given place and says which tree, or which
//! error, the tokens from that place on stand for, and how many of them
//! belong to it.
//!
//! Expressions are read by operator precedence with two stacks. The operand
//! stack holds finished subtrees. The operator stack holds binary operators
//! that still wait for their right operand, and a marker for each
//! parenthesis that is still open.

use vstd::prelude::*;
use crate::ast::{ExpressionView, FunctionView, ProgramView, StatementView};
use crate::parse_error::{located, ExpectedView, InvalidReason, ParseErrorView};
use crate::token::{
    Keyword, Operator, PositionView, Precedence, Separator, TokenKindView, TokenView, Type,
};

verus! {

/// An entry of the operator stack.
#[derive(Clone, Copy, Debug, PartialEq, Eq, Structural)]
pub enum StackItem {
    /// An open parenthesis.
    Marker,
    /// A binary operator that waits for its right operand.
    Op(Operator),
}

/// The two stacks of the expression reader, each with its top at the end.
pub struct Stacks {
    pub operands: Seq<ExpressionView>,
    pub operators: Seq<StackItem>,
}

/// What asking for a token of kind `expected` at place `pos` gives: nothing
/// to complain about, or the error that names what stands there instead.
pub open spec fn expect_at(tokens: Seq<TokenView>, pos: int, expected: TokenKindView) -> Result<
    (),
    ParseErrorView,
> {
    if 0 <= pos < tokens.len() {
        if tokens[pos].kind == expected {
            Ok(())
        } else {
            Err(
                ParseErrorView::UnexpectedToken {
                    expected: ExpectedView::Kind(expected),
                    found: tokens[pos].kind,
                    position: tokens[pos].pos,
                },
            )
        }
    } else {
        Err(ParseErrorView::UnexpectedEndOfInput { expected: ExpectedView::Kind(expected) })
    }
}

/// What asking for a token of one of the kinds `expected` at place `pos`
/// gives.
pub open spec fn expect_any_at(
    tokens: Seq<TokenView>,
    pos: int,
    expected: Seq<TokenKindView>,
) -> Result<(), ParseErrorView> {
    if 0 <= pos < tokens.len() {
        if expected.contains(tokens[pos].kind) {
            Ok(())
        } else {
            Err(
                ParseErrorView::UnexpectedToken {
                    expected: ExpectedView::AnyOf(expected),
                    found: tokens[pos].kind,
                    position: tokens[pos].pos,
                },
            )
        }
    } else {
        Err(ParseErrorView::UnexpectedEndOfInput { expected: ExpectedView::AnyOf(expected) })
    }
}

/// Combines the two topmost operands with `op`: the topmost is the right
/// operand, the one below it the left. Fewer than two operands are an
/// error. The stacks know no places: an error of theirs gets its place from
/// the reader.
pub open spec fn apply_operator(operands: Seq<ExpressionView>, op: Operator) -> Result<
    Seq<ExpressionView>,
    ParseErrorView,
> {
    if operands.len() < 2 {
        Err(
            ParseErrorView::InvalidExpression {
                reason: InvalidReason::NotEnoughOperands,
                at: None,
            },
        )
    } else {
        Ok(
            operands.take(operands.len() - 2).push(
                ExpressionView::Binary {
                    left: Box::new(operands[operands.len() - 2]),
                    op,
                    right: Box::new(operands[operands.len() - 1]),
                },
            ),
        )
    }
}

/// What a closing parenthesis does to the stacks: operators are popped and
/// applied, topmost first, until a marker has been popped or the operator
/// stack is empty.
pub open spec fn close_group(operands: Seq<ExpressionView>, operators: Seq<StackItem>) -> Result<
    Stacks,
    ParseErrorView,
>
    decreases operators.len(),
{
    if operators.len() == 0 {
        Ok(Stacks { operands, operators })
    } else {
        match operators.last() {
            StackItem::Marker => Ok(Stacks { operands, operators: operators.drop_last() }),
            StackItem::Op(op) => match apply_operator(operands, op) {
                Err(e) => Err(e),
                Ok(combined) => close_group(combined, operators.drop_last()),
            },
        }
    }
}

/// What an operator `op` does to the stacks before it is pushed: while the
/// top of the operator stack is an operator that binds at least as tightly
/// as `op`, that operator is popped and applied. This makes operators of
/// equal precedence associate to the left.
pub open spec fn yield_to(
    operands: Seq<ExpressionView>,
    operators: Seq<StackItem>,
    op: Operator,
) -> Result<Stacks, ParseErrorView>
    decreases operators.len(),
{
    if operators.len() == 0 {
        Ok(Stacks { operands, operators })
    } else {
        match operators.last() {
            StackItem::Marker => Ok(Stacks { operands, operators }),
            StackItem::Op(top) => if top.precedence_level() >= op.precedence_level() {
                match apply_operator(operands, top) {
                    Err(e) => Err(e),
                    Ok(combined) => yield_to(combined, operators.drop_last(), op),
                }
            } else {
                Ok(Stacks { operands, operators })
            },
        }
    }
}

/// What the end of an expression does to the stacks: every operator left is
/// popped and applied, topmost first. A marker met on the way is a
/// parenthesis that was never closed.
pub open spec fn drain(operands: Seq<ExpressionView>, operators: Seq<StackItem>) -> Result<
    Seq<ExpressionView>,
    ParseErrorView,
>
    decreases operators.len(),
{
    if operators.len() == 0 {
        Ok(operands)
    } else {
        match operators.last() {
            StackItem::Marker => Err(ParseErrorView::MismatchedParentheses { at: None }),
            StackItem::Op(op) => match apply_operator(operands, op) {
                Err(e) => Err(e),
                Ok(combined) => drain(combined, operators.drop_last()),
            },
        }
    }
}

/// Reads the tokens of an expression from place `pos` on, starting with the
/// given stacks, and gives the stacks at the first token that cannot belong
/// to an expression, with the number of tokens read.
///
/// An integer literal becomes an operand. An identifier must be followed by
/// `(` and `)` and becomes a call. `(` pushes a marker. `)` closes a group
/// and is an error when the operator stack is empty. An operator first
/// yields to tighter ones on the stack and is then pushed. An error of the
/// stacks has the place of the token at which it came up.
pub open spec fn scan(
    tokens: Seq<TokenView>,
    pos: int,
    operands: Seq<ExpressionView>,
    operators: Seq<StackItem>,
) -> Result<(Stacks, nat), ParseErrorView>
    decreases tokens.len() - pos,
{
    if !(0 <= pos < tokens.len()) {
        Ok((Stacks { operands, operators }, 0))
    } else {
        match tokens[pos].kind {
            TokenKindView::IntLit(n) => scan_more(
                scan(tokens, pos + 1, operands.push(ExpressionView::IntLit(n)), operators),
                1,
            ),
            TokenKindView::Identifier(name) => match expect_at(
                tokens,
                pos + 1,
                TokenKindView::Separator(Separator::LParen),
            ) {
                Err(e) => Err(e),
                Ok(_) => match expect_at(
                    tokens,
                    pos + 2,
                    TokenKindView::Separator(Separator::RParen),
                ) {
                    Err(e) => Err(e),
                    Ok(_) => scan_more(
                        scan(
                            tokens,
                            pos + 3,
                            operands.push(ExpressionView::FunctionCall { name }),
                            operators,
                        ),
                        3,
                    ),
                },
            },
            TokenKindView::Separator(Separator::LParen) => scan_more(
                scan(tokens, pos + 1, operands, operators.push(StackItem::Marker)),
                1,
            ),
            TokenKindView::Separator(Separator::RParen) => if operators.len() == 0 {
                Err(ParseErrorView::MismatchedParentheses { at: Some(tokens[pos].pos) })
            } else {
                match close_group(operands, operators) {
                    Err(e) => Err(located(e, Some(tokens[pos].pos))),
                    Ok(stacks) => scan_more(
                        scan(tokens, pos + 1, stacks.operands, stacks.operators),
                        1,
                    ),
                }
            },
            TokenKindView::Operator(op) => match yield_to(operands, operators, op) {
                Err(e) => Err(located(e, Some(tokens[pos].pos))),
                Ok(stacks) => scan_more(
                    scan(
                        tokens,
                        pos + 1,
                        stacks.operands,
                        stacks.operators.push(StackItem::Op(op)),
                    ),
                    1,
                ),
            },
            _ => Ok((Stacks { operands, operators }, 0)),
        }
    }
}

/// Adds the `read` tokens that were read before a scan to its count.
pub open spec fn scan_more(rest: Result<(Stacks, nat), ParseErrorView>, read: nat) -> Result<
    (Stacks, nat),
    ParseErrorView,
> {
    match rest {
        Err(e) => Err(e),
        Ok((stacks, n)) => Ok((stacks, n + read)),
    }
}

/// What is left on the operand stack when an expression has ended: one
/// value is the expression, none is an absent expression, more are an error.
pub open spec fn sole_operand(operands: Seq<ExpressionView>) -> Result<
    Option<ExpressionView>,
    ParseErrorView,
> {
    if operands.len() == 0 {
        Ok(None)
    } else if operands.len() == 1 {
        Ok(Some(operands[0]))
    } else {
        Err(
            ParseErrorView::InvalidExpression {
                reason: InvalidReason::TooManyOperands,
                at: None,
            },
        )
    }
}

/// The place of the token at place `pos`, if there is a token.
pub open spec fn place_at(tokens: Seq<TokenView>, pos: int) -> Option<PositionView> {
    if 0 <= pos < tokens.len() {
        Some(tokens[pos].pos)
    } else {
        None
    }
}

/// The expression that starts at place `pos`, if any, and the number of
/// tokens that belong to it. An error that comes up when the expression has
/// ended has the place of the token that ended it.
pub open spec fn expression_at(tokens: Seq<TokenView>, pos: int) -> Result<
    (Option<ExpressionView>, nat),
    ParseErrorView,
> {
    match scan(tokens, pos, Seq::empty(), Seq::empty()) {
        Err(e) => Err(e),
        Ok((stacks, n)) => match drain(stacks.operands, stacks.operators) {
            Err(e) => Err(located(e, place_at(tokens, pos + n))),
            Ok(operands) => match sole_operand(operands) {
                Err(e) => Err(located(e, place_at(tokens, pos + n))),
                Ok(e) => Ok((e, n)),
            },
        },
    }
}

/// The `return` statement that starts at place `pos`: the keyword, an
/// expression that may be absent, and a semicolon.
pub open spec fn return_statement_at(tokens: Seq<TokenView>, pos: int) -> Result<
    (StatementView, nat),
    ParseErrorView,
> {
    match expect_at(tokens, pos, TokenKindView::Keyword(Keyword::Return)) {
        Err(e) => Err(e),
        Ok(_) => match expression_at(tokens, pos + 1) {
            Err(e) => Err(e),
            Ok((e, n)) => match expect_at(
                tokens,
                pos + 1 + n,
                TokenKindView::Separator(Separator::Semi),
            ) {
                Err(e) => Err(e),
                Ok(_) => Ok((StatementView::Return(e), n + 2)),
            },
        },
    }
}

/// The statements from place `pos` up to, and without, the brace that closes
/// the body. Only `return` starts a statement.
pub open spec fn compound_statement_at(tokens: Seq<TokenView>, pos: int) -> Result<
    (Seq<StatementView>, nat),
    ParseErrorView,
>
    decreases tokens.len() - pos,
{
    if !(0 <= pos < tokens.len()) {
        Err(ParseErrorView::UnexpectedEndOfInput { expected: ExpectedView::Statement })
    } else {
        match tokens[pos].kind {
            TokenKindView::Separator(Separator::RBrace) => Ok((Seq::empty(), 0)),
            TokenKindView::Keyword(Keyword::Return) => match return_statement_at(tokens, pos) {
                Err(e) => Err(e),
                Ok((statement, n)) => match compound_statement_at(tokens, pos + n) {
                    Err(e) => Err(e),
                    Ok((rest, m)) => Ok((seq![statement] + rest, n + m)),
                },
            },
            _ => Err(
                ParseErrorView::Unimplemented {
                    found: tokens[pos].kind,
                    position: tokens[pos].pos,
                },
            ),
        }
    }
}

/// The type at place `pos`.
pub open spec fn type_at(tokens: Seq<TokenView>, pos: int) -> Result<Type, ParseErrorView> {
    if 0 <= pos < tokens.len() {
        match tokens[pos].kind {
            TokenKindView::Type(ty) => Ok(ty),
            _ => Err(
                ParseErrorView::UnexpectedToken {
                    expected: ExpectedView::Type,
                    found: tokens[pos].kind,
                    position: tokens[pos].pos,
                },
            ),
        }
    } else {
        Err(ParseErrorView::UnexpectedEndOfInput { expected: ExpectedView::Type })
    }
}

/// The identifier at place `pos`.
pub open spec fn identifier_at(tokens: Seq<TokenView>, pos: int) -> Result<
    Seq<char>,
    ParseErrorView,
> {
    if 0 <= pos < tokens.len() {
        match tokens[pos].kind {
            TokenKindView::Identifier(name) => Ok(name),
            _ => Err(
                ParseErrorView::UnexpectedToken {
                    expected: ExpectedView::Identifier,
                    found: tokens[pos].kind,
                    position: tokens[pos].pos,
                },
            ),
        }
    } else {
        Err(ParseErrorView::UnexpectedEndOfInput { expected: ExpectedView::Identifier })
    }
}

/// The opening of a function body after its name: `(`, `)` and `{` at the
/// three places from `pos` on.
pub open spec fn header_rest_at(tokens: Seq<TokenView>, pos: int) -> Result<(), ParseErrorView> {
    match expect_at(tokens, pos, TokenKindView::Separator(Separator::LParen)) {
        Err(e) => Err(e),
        Ok(_) => match expect_at(tokens, pos + 1, TokenKindView::Separator(Separator::RParen)) {
            Err(e) => Err(e),
            Ok(_) => expect_at(tokens, pos + 2, TokenKindView::Separator(Separator::LBrace)),
        },
    }
}

/// The function that starts at place `pos`: a type, a name, `(`, `)`, `{`,
/// the statements of the body, and `}`.
pub open spec fn function_at(tokens: Seq<TokenView>, pos: int) -> Result<
    (FunctionView, nat),
    ParseErrorView,
> {
    match type_at(tokens, pos) {
        Err(e) => Err(e),
        Ok(return_type) => match identifier_at(tokens, pos + 1) {
            Err(e) => Err(e),
            Ok(name) => match header_rest_at(tokens, pos + 2) {
                Err(e) => Err(e),
                Ok(_) => match compound_statement_at(tokens, pos + 5) {
                    Err(e) => Err(e),
                    Ok((body, n)) => match expect_at(
                        tokens,
                        pos + 5 + n,
                        TokenKindView::Separator(Separator::RBrace),
                    ) {
                        Err(e) => Err(e),
                        Ok(_) => Ok((FunctionView { return_type, name, body }, n + 6)),
                    },
                },
            },
        },
    }
}

/// The functions from place `pos` to the end of the tokens. No tokens at
/// all are a program without functions.
pub open spec fn functions_at(tokens: Seq<TokenView>, pos: int) -> Result<
    Seq<FunctionView>,
    ParseErrorView,
>
    decreases tokens.len() - pos,
{
    if !(0 <= pos < tokens.len()) {
        Ok(Seq::empty())
    } else {
        match function_at(tokens, pos) {
            Err(e) => Err(e),
            Ok((function, n)) => match functions_at(tokens, pos + n) {
                Err(e) => Err(e),
                Ok(rest) => Ok(seq![function] + rest),
            },
        }
    }
}

/// The program that the tokens from place `pos` on stand for.
pub open spec fn program_at(tokens: Seq<TokenView>, pos: int) -> Result<
    ProgramView,
    ParseErrorView,
> {
    match functions_at(tokens, pos) {
        Err(e) => Err(e),
        Ok(functions) => Ok(ProgramView { functions }),
    }
}

} // verus!
