//! The syntax tree: what the parser builds, the analyzer checks and the code
//! generator lowers. Trees are built once and never changed afterwards.

use vstd::prelude::*;
use crate::token::{Operator, Type};

verus! {

/// An expression as a mathematical value.
pub enum ExpressionView {
    IntLit(u32),
    FunctionCall { name: Seq<char> },
    Binary { left: Box<ExpressionView>, op: Operator, right: Box<ExpressionView> },
}

/// An expression: an integer literal, a call without arguments, or a binary
/// operation that owns its two operands.
#[derive(Debug, PartialEq, Eq)]
pub enum Expression {
    IntLit(u32),
    FunctionCall { name: String },
    Binary { left: Box<Expression>, op: Operator, right: Box<Expression> },
}

/// The mathematical value of an expression: the same tree, with each name
/// as the sequence of its characters.
pub open spec fn expression_view(e: Expression) -> ExpressionView
    decreases e,
{
    match e {
        Expression::IntLit(n) => ExpressionView::IntLit(n),
        Expression::FunctionCall { name } => ExpressionView::FunctionCall { name: name@ },
        Expression::Binary { left, op, right } => ExpressionView::Binary {
            left: Box::new(expression_view(*left)),
            op,
            right: Box::new(expression_view(*right)),
        },
    }
}

impl View for Expression {
    type V = ExpressionView;

    open spec fn view(&self) -> ExpressionView {
        expression_view(*self)
    }
}

impl Clone for Expression {
    fn clone(&self) -> (r: Self)
        ensures
            r@ == self@,
        decreases self,
    {
        match self {
            Expression::IntLit(n) => Expression::IntLit(*n),
            Expression::FunctionCall { name } => Expression::FunctionCall { name: name.clone() },
            Expression::Binary { left, op, right } => {
                let l = (**left).clone();
                let r = (**right).clone();
                Expression::Binary { left: Box::new(l), op: *op, right: Box::new(r) }
            },
        }
    }
}

/// The views of a sequence of expressions, in order.
pub open spec fn expression_views(expressions: Seq<Expression>) -> Seq<ExpressionView> {
    expressions.map_values(|e: Expression| e@)
}

/// The view of an expression that may be absent.
pub open spec fn optional_expression_view(e: Option<Expression>) -> Option<ExpressionView> {
    match e {
        Some(e) => Some(e@),
        None => None,
    }
}

/// A statement as a mathematical value.
pub enum StatementView {
    Return(Option<ExpressionView>),
}

/// A statement. `return`, with or without a value, is the only kind.
#[derive(Debug, PartialEq, Eq)]
pub enum Statement {
    Return(Option<Expression>),
}

impl View for Statement {
    type V = StatementView;

    open spec fn view(&self) -> StatementView {
        match self {
            Statement::Return(e) => StatementView::Return(optional_expression_view(*e)),
        }
    }
}

/// The views of a sequence of statements, in order.
pub open spec fn statement_views(body: Seq<Statement>) -> Seq<StatementView> {
    body.map_values(|s: Statement| s@)
}

/// A function as a mathematical value.
pub struct FunctionView {
    pub return_type: Type,
    pub name: Seq<char>,
    pub body: Seq<StatementView>,
}

/// A function definition: its declared return type, its name and the
/// statements of its body in source order.
#[derive(Debug, PartialEq, Eq)]
pub struct Function {
    pub return_type: Type,
    pub name: String,
    pub body: Vec<Statement>,
}

impl View for Function {
    type V = FunctionView;

    open spec fn view(&self) -> FunctionView {
        FunctionView {
            return_type: self.return_type,
            name: self.name@,
            body: statement_views(self.body@),
        }
    }
}

/// The views of a sequence of functions, in order.
pub open spec fn function_views(functions: Seq<Function>) -> Seq<FunctionView> {
    functions.map_values(|f: Function| f@)
}

/// A program as a mathematical value: its functions in source order.
pub struct ProgramView {
    pub functions: Seq<FunctionView>,
}

/// A whole program: its functions in source order, which is also the order
/// in which code is emitted for them.
#[derive(Debug, PartialEq, Eq)]
pub struct Program {
    pub functions: Vec<Function>,
}

impl View for Program {
    type V = ProgramView;

    open spec fn view(&self) -> ProgramView {
        ProgramView { functions: function_views(self.functions@) }
    }
}

} // verus!
