//! The static rules of the language, as mathematics: the type of an
//! expression under a stack of scopes, and what it takes for a statement, a
//! function and a program to be well typed. Where a rule is broken, the
//! first breach in source order is the error.

use vstd::prelude::*;
use crate::ast::{ExpressionView, FunctionView, ProgramView, StatementView};
use crate::symbol_table::{bind_innermost, lookup, ScopeView, Symbol, SymbolKind};
use crate::token::Type;

verus! {

/// A breach of the static rules, as a mathematical value.
pub enum AnalysisErrorView {
    UndefinedSymbol { name: Seq<char> },
    TypeMismatch { left: Type, right: Type },
    ReturnTypeMismatch { expected: Type, found: Type },
}

/// A breach of the static rules.
#[derive(Debug, PartialEq, Eq)]
pub enum AnalysisError {
    /// A call of a name that no scope binds.
    UndefinedSymbol { name: String },
    /// A binary operation whose operands have different types.
    TypeMismatch { left: Type, right: Type },
    /// A `return` whose value has another type than the function declares.
    ReturnTypeMismatch { expected: Type, found: Type },
}

impl View for AnalysisError {
    type V = AnalysisErrorView;

    open spec fn view(&self) -> AnalysisErrorView {
        match self {
            AnalysisError::UndefinedSymbol { name } => AnalysisErrorView::UndefinedSymbol {
                name: name@,
            },
            AnalysisError::TypeMismatch { left, right } => AnalysisErrorView::TypeMismatch {
                left: *left,
                right: *right,
            },
            AnalysisError::ReturnTypeMismatch { expected, found } => {
                AnalysisErrorView::ReturnTypeMismatch { expected: *expected, found: *found }
            },
        }
    }
}

/// The type of an expression. A literal is an `int`. A call has the type of
/// the symbol that its name stands for. The operands of a binary operation
/// must have one type, which is then the type of the operation; the left
/// operand is looked at first.
pub open spec fn expression_type(scopes: Seq<ScopeView>, e: ExpressionView) -> Result<
    Type,
    AnalysisErrorView,
>
    decreases e,
{
    match e {
        ExpressionView::IntLit(_) => Ok(Type::Int),
        ExpressionView::FunctionCall { name } => match lookup(scopes, name) {
            Some(symbol) => Ok(symbol.ty),
            None => Err(AnalysisErrorView::UndefinedSymbol { name }),
        },
        ExpressionView::Binary { left, op, right } => match expression_type(scopes, *left) {
            Err(e) => Err(e),
            Ok(left_type) => match expression_type(scopes, *right) {
                Err(e) => Err(e),
                Ok(right_type) => if left_type == right_type {
                    Ok(left_type)
                } else {
                    Err(AnalysisErrorView::TypeMismatch { left: left_type, right: right_type })
                },
            },
        },
    }
}

/// The type of what a `return` gives back: `void` when it gives nothing.
pub open spec fn returned_type(scopes: Seq<ScopeView>, e: Option<ExpressionView>) -> Result<
    Type,
    AnalysisErrorView,
> {
    match e {
        None => Ok(Type::Void),
        Some(e) => expression_type(scopes, e),
    }
}

/// A `return` is well typed in a function that declares `return_type` when
/// what it gives back has that type.
pub open spec fn check_statement(
    scopes: Seq<ScopeView>,
    statement: StatementView,
    return_type: Type,
) -> Result<(), AnalysisErrorView> {
    match statement {
        StatementView::Return(e) => match returned_type(scopes, e) {
            Err(e) => Err(e),
            Ok(found) => if found == return_type {
                Ok(())
            } else {
                Err(AnalysisErrorView::ReturnTypeMismatch { expected: return_type, found })
            },
        },
    }
}

/// The statements of `body` from place `from` on are well typed.
pub open spec fn check_statements(
    scopes: Seq<ScopeView>,
    body: Seq<StatementView>,
    from: int,
    return_type: Type,
) -> Result<(), AnalysisErrorView>
    decreases body.len() - from,
{
    if !(0 <= from < body.len()) {
        Ok(())
    } else {
        match check_statement(scopes, body[from], return_type) {
            Err(e) => Err(e),
            Ok(_) => check_statements(scopes, body, from + 1, return_type),
        }
    }
}

/// The symbol that a function definition binds its name to.
pub open spec fn function_symbol(function: FunctionView) -> Symbol {
    Symbol { kind: SymbolKind::Function, ty: function.return_type }
}

/// The scopes after a function has been declared: its name is bound in the
/// innermost scope.
pub open spec fn declare(scopes: Seq<ScopeView>, function: FunctionView) -> Seq<ScopeView> {
    bind_innermost(scopes, function.name, function_symbol(function))
}

/// A function is well typed when its body is, in a fresh scope above the
/// scopes in which the function itself is already declared. So a function
/// may call itself.
pub open spec fn check_function(scopes: Seq<ScopeView>, function: FunctionView) -> Result<
    (),
    AnalysisErrorView,
> {
    check_statements(
        declare(scopes, function).push(Map::empty()),
        function.body,
        0,
        function.return_type,
    )
}

/// Checks the functions from place `from` on, in order, each under the
/// declarations of those before it. Gives the scopes as they are left, and
/// the first error if there is one. The function in which the error lies
/// is declared; those after it are not.
pub open spec fn check_functions(
    scopes: Seq<ScopeView>,
    functions: Seq<FunctionView>,
    from: int,
) -> (Seq<ScopeView>, Result<(), AnalysisErrorView>)
    decreases functions.len() - from,
{
    if !(0 <= from < functions.len()) {
        (scopes, Ok(()))
    } else {
        match check_function(scopes, functions[from]) {
            Err(e) => (declare(scopes, functions[from]), Err(e)),
            Ok(_) => check_functions(declare(scopes, functions[from]), functions, from + 1),
        }
    }
}

/// The static check of a whole program, from an empty symbol table.
pub open spec fn check_program(program: ProgramView) -> Result<(), AnalysisErrorView> {
    check_functions(seq![Map::<Seq<char>, Symbol>::empty()], program.functions, 0).1
}

/// A program of the one function `function`.
pub open spec fn sole_function(function: FunctionView) -> ProgramView {
    ProgramView { functions: seq![function] }
}

/// A function whose body is the one statement `return value;`.
pub open spec fn returning(return_type: Type, name: Seq<char>, value: Option<ExpressionView>) -> FunctionView {
    FunctionView { return_type, name, body: seq![StatementView::Return(value)] }
}

/// The analysis leaves no scope open and pops none: the stack of scopes is
/// as deep afterwards as it was before, whether the program is well typed
/// or not.
pub proof fn law_analysis_keeps_depth(
    scopes: Seq<ScopeView>,
    functions: Seq<FunctionView>,
    from: int,
)
    requires
        scopes.len() >= 1,
    ensures
        check_functions(scopes, functions, from).0.len() == scopes.len(),
    decreases functions.len() - from,
{
    if 0 <= from < functions.len() {
        law_analysis_keeps_depth(declare(scopes, functions[from]), functions, from + 1);
    }
}

/// An `int` function that returns an integer literal is well typed,
/// whatever its name and the literal.
pub proof fn law_int_function_returning_literal_checks(name: Seq<char>, value: u32)
    ensures
        check_program(
            sole_function(returning(Type::Int, name, Some(ExpressionView::IntLit(value)))),
        ) is Ok,
{
    reveal_with_fuel(check_functions, 2);
    reveal_with_fuel(check_statements, 2);
}

/// A `void` function with a bare `return` is well typed.
pub proof fn law_void_function_with_bare_return_checks(name: Seq<char>)
    ensures
        check_program(sole_function(returning(Type::Void, name, None))) is Ok,
{
    reveal_with_fuel(check_functions, 2);
    reveal_with_fuel(check_statements, 2);
}

/// An `int` function with a bare `return` returns the wrong type.
pub proof fn law_int_function_with_bare_return_mismatches(name: Seq<char>)
    ensures
        check_program(sole_function(returning(Type::Int, name, None))) == Err::<
            (),
            AnalysisErrorView,
        >(AnalysisErrorView::ReturnTypeMismatch { expected: Type::Int, found: Type::Void }),
{
    reveal_with_fuel(check_functions, 2);
    reveal_with_fuel(check_statements, 2);
}

/// A call of a name that was never declared is an undefined symbol.
pub proof fn law_call_of_undeclared_name_is_undefined(
    return_type: Type,
    name: Seq<char>,
    callee: Seq<char>,
)
    requires
        callee != name,
    ensures
        check_program(
            sole_function(
                returning(return_type, name, Some(ExpressionView::FunctionCall { name: callee })),
            ),
        ) == Err::<(), AnalysisErrorView>(AnalysisErrorView::UndefinedSymbol { name: callee }),
{
    reveal_with_fuel(check_functions, 2);
    reveal_with_fuel(check_statements, 2);
    reveal_with_fuel(lookup, 3);
    let function = returning(
        return_type,
        name,
        Some(ExpressionView::FunctionCall { name: callee }),
    );
    let global = seq![Map::<Seq<char>, Symbol>::empty()];
    let inside = declare(global, function).push(Map::empty());
    assert(inside.drop_last() =~= declare(global, function));
    assert(declare(global, function).drop_last() =~= Seq::<ScopeView>::empty());
    assert(lookup(inside, callee) is None);
}

/// A function is declared before its body is checked, so it may call
/// itself.
pub proof fn law_function_may_call_itself(return_type: Type, name: Seq<char>)
    ensures
        check_program(
            sole_function(
                returning(return_type, name, Some(ExpressionView::FunctionCall { name })),
            ),
        ) is Ok,
{
    reveal_with_fuel(check_functions, 2);
    reveal_with_fuel(check_statements, 2);
    reveal_with_fuel(lookup, 3);
    let function = returning(return_type, name, Some(ExpressionView::FunctionCall { name }));
    let global = seq![Map::<Seq<char>, Symbol>::empty()];
    let inside = declare(global, function).push(Map::empty());
    assert(inside.drop_last() =~= declare(global, function));
    assert(lookup(inside, name) == Some(function_symbol(function)));
}

} // verus!
