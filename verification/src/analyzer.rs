//! The semantic analyzer: walks a program in source order, keeps the symbol
//! table, and stops at the first breach of the static rules.

use vstd::prelude::*;
use crate::ast::{
    optional_expression_view, statement_views, Expression, Function, Program, Statement,
};
use crate::symbol_table::{ScopeView, Symbol, SymbolKind, SymbolTable};
use crate::token::Type;
use crate::typing::{
    check_function, check_functions, check_statement, check_statements, declare,
    expression_type, returned_type, AnalysisError,
};

verus! {

/// The analyzer and the symbol table that it fills.
#[derive(Debug)]
pub struct Analyzer {
    symbol_table: SymbolTable,
}

impl View for Analyzer {
    type V = Seq<ScopeView>;

    closed spec fn view(&self) -> Seq<ScopeView> {
        self.symbol_table@
    }
}

impl Analyzer {
    /// The analyzer's symbol table is well formed.
    pub closed spec fn wf(&self) -> bool {
        self.symbol_table.wf()
    }

    /// An analyzer whose table holds the program's own scope, still empty.
    pub fn new() -> (r: Self)
        ensures
            r.wf(),
            r@ == seq![Map::<Seq<char>, Symbol>::empty()],
    {
        Analyzer { symbol_table: SymbolTable::new() }
    }

    /// The type of the expression `e` under the scopes of the table.
    pub fn expression_type(&self, e: &Expression) -> (r: Result<Type, AnalysisError>)
        requires
            self.wf(),
        ensures
            match expression_type(self@, e@) {
                Ok(ty) => r == Ok::<Type, AnalysisError>(ty),
                Err(err) => r matches Err(x) && x@ == err,
            },
        decreases e,
    {
        match e {
            Expression::IntLit(_) => Ok(Type::Int),
            Expression::FunctionCall { name } => match self.symbol_table.get(name.as_str()) {
                Some(symbol) => Ok(symbol.ty),
                None => Err(AnalysisError::UndefinedSymbol { name: name.clone() }),
            },
            Expression::Binary { left, op: _, right } => {
                let left_type = self.expression_type(left)?;
                let right_type = self.expression_type(right)?;
                if left_type != right_type {
                    return Err(AnalysisError::TypeMismatch { left: left_type, right: right_type });
                }
                Ok(left_type)
            },
        }
    }

    /// The type of what a `return` gives back: `void` when the expression
    /// is absent.
    pub fn analyze_expression(&self, expression: &Option<Expression>) -> (r: Result<
        Type,
        AnalysisError,
    >)
        requires
            self.wf(),
        ensures
            match returned_type(self@, optional_expression_view(*expression)) {
                Ok(ty) => r == Ok::<Type, AnalysisError>(ty),
                Err(err) => r matches Err(x) && x@ == err,
            },
    {
        match expression {
            Some(e) => self.expression_type(e),
            None => Ok(Type::Void),
        }
    }

    /// Checks one statement of a function that declares `return_type`.
    pub fn analyze_statement(&self, statement: &Statement, return_type: &Type) -> (r: Result<
        (),
        AnalysisError,
    >)
        requires
            self.wf(),
        ensures
            match check_statement(self@, statement@, *return_type) {
                Ok(_) => r is Ok,
                Err(err) => r matches Err(x) && x@ == err,
            },
    {
        match statement {
            Statement::Return(expression) => {
                let expression_type = self.analyze_expression(expression)?;
                if expression_type != *return_type {
                    return Err(
                        AnalysisError::ReturnTypeMismatch {
                            expected: *return_type,
                            found: expression_type,
                        },
                    );
                }
            },
        }
        Ok(())
    }

    /// Checks the statements of a body in order.
    fn analyze_body(&self, body: &Vec<Statement>, return_type: &Type) -> (r: Result<
        (),
        AnalysisError,
    >)
        requires
            self.wf(),
        ensures
            match check_statements(self@, statement_views(body@), 0, *return_type) {
                Ok(_) => r is Ok,
                Err(err) => r matches Err(x) && x@ == err,
            },
    {
        let mut i: usize = 0;
        while i < body.len()
            invariant
                i <= body@.len(),
                self.wf(),
                check_statements(self@, statement_views(body@), 0, *return_type)
                    == check_statements(self@, statement_views(body@), i as int, *return_type),
            decreases body@.len() - i,
        {
            self.analyze_statement(&body[i], return_type)?;
            i += 1;
        }
        Ok(())
    }

    /// Declares the function in the innermost scope, then checks its body
    /// in a fresh scope, which is left again whether the body is well typed
    /// or not.
    pub fn analyze_function(&mut self, function: &Function) -> (r: Result<(), AnalysisError>)
        requires
            old(self).wf(),
        ensures
            final(self).wf(),
            final(self)@ == declare(old(self)@, function@),
            match check_function(old(self)@, function@) {
                Ok(_) => r is Ok,
                Err(err) => r matches Err(x) && x@ == err,
            },
    {
        let symbol = Symbol { kind: SymbolKind::Function, ty: function.return_type };
        self.symbol_table.insert(function.name.clone(), symbol);
        self.symbol_table.enter_scope();
        let result = self.analyze_body(&function.body, &function.return_type);
        self.symbol_table.exit_scope();
        assert(declare(old(self)@, function@).push(Map::empty()).drop_last() =~= declare(
            old(self)@,
            function@,
        ));
        result
    }

    /// Checks the functions of the program in source order and stops at the
    /// first error. Every function up to and with the last one checked is
    /// declared in the innermost scope afterwards, and no scope is left
    /// open.
    pub fn analyze(&mut self, program: &Program) -> (r: Result<(), AnalysisError>)
        requires
            old(self).wf(),
        ensures
            final(self).wf(),
            final(self)@ == check_functions(old(self)@, program@.functions, 0).0,
            match check_functions(old(self)@, program@.functions, 0).1 {
                Ok(_) => r is Ok,
                Err(err) => r matches Err(x) && x@ == err,
            },
    {
        let mut i: usize = 0;
        while i < program.functions.len()
            invariant
                i <= program.functions@.len(),
                self.wf(),
                check_functions(old(self)@, program@.functions, 0) == check_functions(
                    self@,
                    program@.functions,
                    i as int,
                ),
            decreases program.functions@.len() - i,
        {
            self.analyze_function(&program.functions[i])?;
            i += 1;
        }
        Ok(())
    }
}

/// Checks a whole program against the static rules, starting from an empty
/// symbol table.
pub fn analyze(program: Program) -> (r: Result<(), AnalysisError>)
    ensures
        match check_functions(seq![Map::<Seq<char>, Symbol>::empty()], program@.functions, 0).1 {
            Ok(_) => r is Ok,
            Err(err) => r matches Err(x) && x@ == err,
        },
{
    let mut analyzer = Analyzer::new();
    analyzer.analyze(&program)
}

} // verus!
