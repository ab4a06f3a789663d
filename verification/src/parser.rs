//! The parser: from tokens to a program, or to the first error.

use vstd::prelude::*;
use crate::ast::{
    expression_views, function_views, optional_expression_view, statement_views, Expression,
    Function, FunctionView, Program, Statement, StatementView,
};
use crate::grammar::{
    apply_operator, close_group, compound_statement_at, drain, expression_at, function_at,
    functions_at, place_at, program_at, return_statement_at, scan, scan_more, type_at,
    yield_to, StackItem, Stacks,
};
use crate::parse_error::{
    optional_position_view, Expected, InvalidReason, ParseError, ParseErrorView,
};
use crate::token::{
    token_views, Keyword, Operator, Position, Precedence, Separator, Token, TokenKind,
    TokenView, Type,
};
use crate::token_stream::TokenStream;

verus! {

/// The statements `done`, read from `read` tokens, in front of what the
/// rest of a body stands for.
spec fn prepend_statements(
    done: Seq<StatementView>,
    read: nat,
    rest: Result<(Seq<StatementView>, nat), ParseErrorView>,
) -> Result<(Seq<StatementView>, nat), ParseErrorView> {
    match rest {
        Err(e) => Err(e),
        Ok((body, n)) => Ok((done + body, read + n)),
    }
}

/// The functions `done` in front of what the rest of the tokens stands for.
spec fn prepend_functions(
    done: Seq<FunctionView>,
    rest: Result<Seq<FunctionView>, ParseErrorView>,
) -> Result<Seq<FunctionView>, ParseErrorView> {
    match rest {
        Err(e) => Err(e),
        Ok(functions) => Ok(done + functions),
    }
}

/// A parser over a borrowed sequence of tokens.
#[derive(Debug)]
pub struct Parser<'a> {
    token_stream: TokenStream<'a>,
}

/// Pops operators and applies them until a marker has been popped or no
/// operator is left.
fn close_operators(
    parser: &Parser,
    operands: &mut Vec<Expression>,
    operators: &mut Vec<StackItem>,
) -> (r: Result<(), ParseError>)
    ensures
        match close_group(expression_views(old(operands)@), old(operators)@) {
            Ok(stacks) => r is Ok && expression_views(final(operands)@) == stacks.operands
                && final(operators)@ == stacks.operators,
            Err(e) => r matches Err(x) && x@ == e,
        },
{
    loop
        invariant
            close_group(expression_views(old(operands)@), old(operators)@) == close_group(
                expression_views(operands@),
                operators@,
            ),
        decreases operators@.len(),
    {
        let ghost before = operators@;
        match operators.pop() {
            None => {
                return Ok(());
            },
            Some(StackItem::Marker) => {
                assert(operators@ =~= before.drop_last());
                return Ok(());
            },
            Some(StackItem::Op(op)) => {
                assert(operators@ =~= before.drop_last());
                parser.apply_operator(operands, op)?;
            },
        }
    }
}

/// Pops and applies the operators on top of the stack that bind at least
/// as tightly as `op`, which is about to be pushed.
fn yield_operators(
    parser: &Parser,
    operands: &mut Vec<Expression>,
    operators: &mut Vec<StackItem>,
    op: Operator,
) -> (r: Result<(), ParseError>)
    ensures
        match yield_to(expression_views(old(operands)@), old(operators)@, op) {
            Ok(stacks) => r is Ok && expression_views(final(operands)@) == stacks.operands
                && final(operators)@ == stacks.operators,
            Err(e) => r matches Err(x) && x@ == e,
        },
{
    let op_precedence = op.precedence();
    loop
        invariant
            op_precedence == op.precedence_level(),
            yield_to(expression_views(old(operands)@), old(operators)@, op) == yield_to(
                expression_views(operands@),
                operators@,
                op,
            ),
        decreases operators@.len(),
    {
        let n = operators.len();
        if n == 0 {
            return Ok(());
        }
        match operators[n - 1] {
            StackItem::Marker => {
                return Ok(());
            },
            StackItem::Op(top) => {
                if top.precedence() >= op_precedence {
                    let ghost before = operators@;
                    operators.pop();
                    assert(operators@ =~= before.drop_last());
                    parser.apply_operator(operands, top)?;
                } else {
                    return Ok(());
                }
            },
        }
    }
}

/// Pops and applies every operator that is left when an expression ends.
fn drain_operators(
    parser: &Parser,
    operands: &mut Vec<Expression>,
    operators: &mut Vec<StackItem>,
) -> (r: Result<(), ParseError>)
    ensures
        match drain(expression_views(old(operands)@), old(operators)@) {
            Ok(left) => r is Ok && expression_views(final(operands)@) == left,
            Err(e) => r matches Err(x) && x@ == e,
        },
{
    loop
        invariant
            drain(expression_views(old(operands)@), old(operators)@) == drain(
                expression_views(operands@),
                operators@,
            ),
        decreases operators@.len(),
    {
        let ghost before = operators@;
        match operators.pop() {
            None => {
                return Ok(());
            },
            Some(StackItem::Marker) => {
                return Err(ParseError::MismatchedParentheses { at: None });
            },
            Some(StackItem::Op(op)) => {
                assert(operators@ =~= before.drop_last());
                parser.apply_operator(operands, op)?;
            },
        }
    }
}

impl<'a> Parser<'a> {
    /// The parser's cursor stands within its tokens.
    pub open spec fn wf(&self) -> bool {
        0 <= self.position() <= self.tokens().len()
    }

    /// All the tokens that the parser was made with.
    pub closed spec fn tokens(&self) -> Seq<TokenView> {
        self.token_stream.tokens()
    }

    /// The number of tokens that have been consumed.
    pub closed spec fn position(&self) -> int {
        self.token_stream.position()
    }

    /// The place of the token at the cursor, if there is a token.
    pub fn place(&self) -> (r: Option<Position>)
        requires
            self.wf(),
        ensures
            optional_position_view(r) == place_at(self.tokens(), self.position()),
    {
        match self.token_stream.peek() {
            Some(token) => Some(token.pos.clone()),
            None => None,
        }
    }

    /// A parser at the first of `tokens`.
    pub fn new(tokens: &'a [Token]) -> (r: Self)
        ensures
            r.wf(),
            r.tokens() == token_views(tokens@),
            r.position() == 0,
    {
        Parser { token_stream: TokenStream::new(tokens) }
    }

    /// Reads the expression at the cursor, which may be absent, and leaves
    /// the cursor at the first token that does not belong to it.
    pub fn parse_expression(&mut self) -> (r: Result<Option<Expression>, ParseError>)
        requires
            old(self).wf(),
        ensures
            final(self).wf(),
            final(self).tokens() == old(self).tokens(),
            old(self).position() <= final(self).position(),
            match expression_at(old(self).tokens(), old(self).position()) {
                Ok((e, n)) => r matches Ok(x) && optional_expression_view(x) == e
                    && final(self).position() == old(self).position() + n,
                Err(e) => r matches Err(x) && x@ == e,
            },
    {
        let mut operand_stack: Vec<Expression> = Vec::new();
        let mut operator_stack: Vec<StackItem> = Vec::new();
        let ghost tokens = self.tokens();
        let ghost start = self.position();
        let mut done = false;
        assert(expression_views(operand_stack@) =~= Seq::empty());
        while !done
            invariant
                self.wf(),
                self.tokens() == tokens,
                tokens == old(self).tokens(),
                start == old(self).position(),
                start <= self.position() <= tokens.len(),
                scan(tokens, start, Seq::empty(), Seq::empty()) == scan_more(
                    scan(
                        tokens,
                        self.position(),
                        expression_views(operand_stack@),
                        operator_stack@,
                    ),
                    (self.position() - start) as nat,
                ),
                done ==> scan(
                    tokens,
                    self.position(),
                    expression_views(operand_stack@),
                    operator_stack@,
                ) == Ok::<(Stacks, nat), ParseErrorView>(
                    (
                        Stacks {
                            operands: expression_views(operand_stack@),
                            operators: operator_stack@,
                        },
                        0,
                    ),
                ),
            decreases tokens.len() - self.position() + (if done { 0int } else { 1int }),
        {
            let ghost operands = expression_views(operand_stack@);
            match self.token_stream.peek() {
                None => {
                    done = true;
                },
                Some(token) => match &token.kind {
                    TokenKind::IntLit(n) => {
                        let n: u32 = *n;
                        self.token_stream.next();
                        operand_stack.push(Expression::IntLit(n));
                        assert(expression_views(operand_stack@) =~= operands.push(
                            Expression::IntLit(n)@,
                        ));
                    },
                    TokenKind::Identifier(name) => {
                        let name = name.clone();
                        self.token_stream.next();
                        self.token_stream.expect(TokenKind::Separator(Separator::LParen))?;
                        self.token_stream.expect(TokenKind::Separator(Separator::RParen))?;
                        let call = Expression::FunctionCall { name };
                        let ghost call_view = call@;
                        operand_stack.push(call);
                        assert(expression_views(operand_stack@) =~= operands.push(call_view));
                    },
                    TokenKind::Separator(Separator::LParen) => {
                        self.token_stream.next();
                        operator_stack.push(StackItem::Marker);
                    },
                    TokenKind::Separator(Separator::RParen) => {
                        self.token_stream.next();
                        if operator_stack.len() == 0 {
                            return Err(
                                ParseError::MismatchedParentheses {
                                    at: Some(token.pos.clone()),
                                },
                            );
                        }
                        match close_operators(self, &mut operand_stack, &mut operator_stack) {
                            Ok(_) => {},
                            Err(e) => {
                                return Err(e.located(Some(token.pos.clone())));
                            },
                        }
                    },
                    TokenKind::Operator(op) => {
                        let op: Operator = *op;
                        self.token_stream.next();
                        match yield_operators(self, &mut operand_stack, &mut operator_stack, op) {
                            Ok(_) => {},
                            Err(e) => {
                                return Err(e.located(Some(token.pos.clone())));
                            },
                        }
                        operator_stack.push(StackItem::Op(op));
                    },
                    _ => {
                        done = true;
                    },
                },
            }
        }
        match drain_operators(self, &mut operand_stack, &mut operator_stack) {
            Ok(_) => {},
            Err(e) => {
                return Err(e.located(self.place()));
            },
        }
        if operand_stack.len() == 0 {
            Ok(None)
        } else if operand_stack.len() == 1 {
            Ok(operand_stack.pop())
        } else {
            Err(
                ParseError::InvalidExpression {
                    reason: InvalidReason::TooManyOperands,
                    at: self.place(),
                },
            )
        }
    }

    /// Reads the type at the cursor and consumes its token.
    pub fn parse_type(&mut self) -> (r: Result<Type, ParseError>)
        requires
            old(self).wf(),
        ensures
            final(self).wf(),
            final(self).tokens() == old(self).tokens(),
            old(self).position() <= final(self).position(),
            match type_at(old(self).tokens(), old(self).position()) {
                Ok(ty) => r == Ok::<Type, ParseError>(ty) && final(self).position() == old(self).position() + 1,
                Err(e) => r matches Err(x) && x@ == e,
            },
    {
        match self.token_stream.next() {
            Some(token) => match &token.kind {
                TokenKind::Type(ty) => Ok(*ty),
                _ => Err(
                    ParseError::UnexpectedToken {
                        expected: Expected::Type,
                        found: token.kind.clone(),
                        position: token.pos.clone(),
                    },
                ),
            },
            None => Err(ParseError::UnexpectedEndOfInput { expected: Expected::Type }),
        }
    }

    /// Reads the `return` statement at the cursor: the keyword, an
    /// expression that may be absent, and a semicolon.
    pub fn parse_return_statement(&mut self) -> (r: Result<Statement, ParseError>)
        requires
            old(self).wf(),
        ensures
            final(self).wf(),
            final(self).tokens() == old(self).tokens(),
            old(self).position() <= final(self).position(),
            match return_statement_at(old(self).tokens(), old(self).position()) {
                Ok((statement, n)) => r matches Ok(x) && x@ == statement && final(self).position() == old(self).position() + n,
                Err(e) => r matches Err(x) && x@ == e,
            },
    {
        self.token_stream.expect(TokenKind::Keyword(Keyword::Return))?;
        let expression = self.parse_expression()?;
        self.token_stream.expect(TokenKind::Separator(Separator::Semi))?;
        Ok(Statement::Return(expression))
    }

    /// Reads statements up to the brace that closes the body, which stays
    /// in the stream.
    pub fn parse_compound_statement(&mut self) -> (r: Result<Vec<Statement>, ParseError>)
        requires
            old(self).wf(),
        ensures
            final(self).wf(),
            final(self).tokens() == old(self).tokens(),
            old(self).position() <= final(self).position(),
            match compound_statement_at(old(self).tokens(), old(self).position()) {
                Ok((body, n)) => r matches Ok(x) && statement_views(x@) == body && final(self).position() == old(self).position() + n,
                Err(e) => r matches Err(x) && x@ == e,
            },
    {
        let mut statements: Vec<Statement> = Vec::new();
        let ghost tokens = self.tokens();
        let ghost start = self.position();
        let mut done = false;
        assert(statement_views(statements@) =~= Seq::empty());
        while !done
            invariant
                self.wf(),
                self.tokens() == tokens,
                tokens == old(self).tokens(),
                start == old(self).position(),
                start <= self.position() <= tokens.len(),
                compound_statement_at(tokens, start) == prepend_statements(
                    statement_views(statements@),
                    (self.position() - start) as nat,
                    compound_statement_at(tokens, self.position()),
                ),
                done ==> compound_statement_at(tokens, self.position()) == Ok::<
                    (Seq<StatementView>, nat),
                    ParseErrorView,
                >((Seq::empty(), 0)),
            decreases tokens.len() - self.position() + (if done { 0int } else { 1int }),
        {
            let ghost before = statement_views(statements@);
            match self.token_stream.peek() {
                None => {
                    return Err(
                        ParseError::UnexpectedEndOfInput { expected: Expected::Statement },
                    );
                },
                Some(token) => match &token.kind {
                    TokenKind::Separator(Separator::RBrace) => {
                        done = true;
                    },
                    TokenKind::Keyword(Keyword::Return) => {
                        let statement = self.parse_return_statement()?;
                        let ghost statement_view = statement@;
                        statements.push(statement);
                        proof {
                            assert(statement_views(statements@) =~= before.push(statement_view));
                            let rest = compound_statement_at(tokens, self.position());
                            if rest is Ok {
                                assert(before + (seq![statement_view] + rest->Ok_0.0)
                                    =~= before.push(statement_view) + rest->Ok_0.0);
                            }
                        }
                    },
                    _ => {
                        return Err(
                            ParseError::Unimplemented {
                                found: token.kind.clone(),
                                position: token.pos.clone(),
                            },
                        );
                    },
                },
            }
        }
        assert(statement_views(statements@) + Seq::empty() =~= statement_views(statements@));
        Ok(statements)
    }

    /// Reads the function at the cursor: a type, a name, `(`, `)`, `{`, the
    /// statements of the body, and `}`.
    pub fn parse_function(&mut self) -> (r: Result<Function, ParseError>)
        requires
            old(self).wf(),
        ensures
            final(self).wf(),
            final(self).tokens() == old(self).tokens(),
            old(self).position() <= final(self).position(),
            match function_at(old(self).tokens(), old(self).position()) {
                Ok((function, n)) => r matches Ok(x) && x@ == function && final(self).position() == old(self).position() + n,
                Err(e) => r matches Err(x) && x@ == e,
            },
    {
        let return_type = self.parse_type()?;
        let name = self.token_stream.expect_identifier()?;
        self.token_stream.expect(TokenKind::Separator(Separator::LParen))?;
        self.token_stream.expect(TokenKind::Separator(Separator::RParen))?;
        self.token_stream.expect(TokenKind::Separator(Separator::LBrace))?;
        let body = self.parse_compound_statement()?;
        self.token_stream.expect(TokenKind::Separator(Separator::RBrace))?;
        Ok(Function { return_type, name, body })
    }

    /// Reads functions until the tokens are exhausted. The result is the
    /// program that the tokens from the cursor on stand for, or the first
    /// error; after a success no token is left.
    pub fn parse(&mut self) -> (r: Result<Program, ParseError>)
        requires
            old(self).wf(),
        ensures
            final(self).wf(),
            final(self).tokens() == old(self).tokens(),
            old(self).position() <= final(self).position(),
            match program_at(old(self).tokens(), old(self).position()) {
                Ok(program) => r matches Ok(x) && x@ == program && final(self).position()
                    == final(self).tokens().len(),
                Err(e) => r matches Err(x) && x@ == e,
            },
    {
        let mut functions: Vec<Function> = Vec::new();
        let ghost tokens = self.tokens();
        let ghost start = self.position();
        assert(function_views(functions@) =~= Seq::empty());
        loop
            invariant
                self.wf(),
                self.tokens() == tokens,
                tokens == old(self).tokens(),
                start == old(self).position(),
                start <= self.position() <= tokens.len(),
                functions_at(tokens, start) == prepend_functions(
                    function_views(functions@),
                    functions_at(tokens, self.position()),
                ),
            decreases tokens.len() - self.position(),
        {
            let ghost before = function_views(functions@);
            match self.token_stream.peek() {
                None => {
                    assert(function_views(functions@) + Seq::empty() =~= function_views(
                        functions@,
                    ));
                    return Ok(Program { functions });
                },
                Some(_) => {
                    let function = self.parse_function()?;
                    let ghost function_view = function@;
                    functions.push(function);
                    proof {
                        assert(function_views(functions@) =~= before.push(function_view));
                        let rest = functions_at(tokens, self.position());
                        if rest is Ok {
                            assert(before + (seq![function_view] + rest->Ok_0)
                                =~= before.push(function_view) + rest->Ok_0);
                        }
                    }
                },
            }
        }
    }

    /// Combines the two topmost operands with `op` into one binary
    /// operation: the topmost is the right operand, the one below it the
    /// left. With fewer than two operands this is an invalid expression.
    pub fn apply_operator(&self, operand_stack: &mut Vec<Expression>, op: Operator) -> (r:
        Result<(), ParseError>)
        ensures
            match apply_operator(expression_views(old(operand_stack)@), op) {
                Ok(operands) => r is Ok && expression_views(final(operand_stack)@) == operands,
                Err(e) => r matches Err(x) && x@ == e,
            },
    {
        let right = operand_stack.pop();
        let left = operand_stack.pop();
        match (right, left) {
            (Some(right), Some(left)) => {
                let ghost before = expression_views(old(operand_stack)@);
                operand_stack.push(
                    Expression::Binary { left: Box::new(left), op, right: Box::new(right) },
                );
                proof {
                    assert(expression_views(operand_stack@) =~= apply_operator(before, op)->Ok_0);
                }
                Ok(())
            },
            _ => Err(
                ParseError::InvalidExpression {
                    reason: InvalidReason::NotEnoughOperands,
                    at: None,
                },
            ),
        }
    }
}

} // verus!
