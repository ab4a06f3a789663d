//! The code generator: lowers a program to assembly text for a machine
//! with two working registers. `w0` is the primary register, in which every
//! expression leaves its value and every function its result; `w1` is the
//! secondary register, which holds the right operand of a binary operation
//! while the left one is computed.
//!
//! The generator checks nothing: it takes a program that the analyzer has
//! accepted. The secondary register is the only place where a value is set
//! aside, so the scheme is meant for operations whose left operand needs no
//! secondary register of its own.

use vstd::prelude::*;
use vstd::string::*;
use crate::ast::{
    function_views, statement_views, Expression, ExpressionView, Function, FunctionView,
    Program, ProgramView, Statement, StatementView,
};
use crate::text::{decimal, push_decimal};
use crate::token::Operator;

verus! {

/// The instruction that combines the primary and the secondary register
/// into the primary one, as a line of text.
pub open spec fn operator_asm(op: Operator) -> Seq<char> {
    match op {
        Operator::Plus => "    add w0, w0, w1\n"@,
        Operator::Minus => "    sub w0, w0, w1\n"@,
        Operator::Star => "    mul w0, w0, w1\n"@,
        Operator::Slash => "    sdiv w0, w0, w1\n"@,
    }
}

/// The lines that leave the value of an expression in the primary register.
///
/// A literal is moved there as an immediate. A call saves the frame and
/// link registers, branches to the callee, which leaves its result in the
/// primary register, and restores them. A binary operation computes its
/// right operand first and sets it aside in the secondary register, then
/// computes its left operand, then combines the two.
pub open spec fn expression_asm(e: ExpressionView) -> Seq<char>
    decreases e,
{
    match e {
        ExpressionView::IntLit(n) => "    mov w0, "@ + decimal(n as nat) + "\n"@,
        ExpressionView::FunctionCall { name } => "    stp x29, x30, [sp, -16]!\n"@
            + "    mov x29, sp\n"@ + "    bl _"@ + name + "\n"@ + "    ldp x29, x30, [sp], 16\n"@,
        ExpressionView::Binary { left, op, right } => expression_asm(*right) + "    mov w1, w0\n"@
            + expression_asm(*left) + operator_asm(op),
    }
}

/// The lines of a statement: those of the returned expression, if there is
/// one, and the return instruction.
pub open spec fn statement_asm(statement: StatementView) -> Seq<char> {
    match statement {
        StatementView::Return(None) => "    ret\n"@,
        StatementView::Return(Some(e)) => expression_asm(e) + "    ret\n"@,
    }
}

/// The lines of the statements of `body` from place `from` on, in order.
pub open spec fn statements_asm(body: Seq<StatementView>, from: int) -> Seq<char>
    decreases body.len() - from,
{
    if !(0 <= from < body.len()) {
        Seq::empty()
    } else {
        statement_asm(body[from]) + statements_asm(body, from + 1)
    }
}

/// The block of a function: the directive that exports its label, the
/// label, the lines of its statements, and an empty line.
pub open spec fn function_asm(function: FunctionView) -> Seq<char> {
    ".globl _"@ + function.name + "\n"@ + "_"@ + function.name + ":\n"@ + statements_asm(
        function.body,
        0,
    ) + "\n"@
}

/// The blocks of the functions from place `from` on, in order.
pub open spec fn functions_asm(functions: Seq<FunctionView>, from: int) -> Seq<char>
    decreases functions.len() - from,
{
    if !(0 <= from < functions.len()) {
        Seq::empty()
    } else {
        function_asm(functions[from]) + functions_asm(functions, from + 1)
    }
}

/// The assembly text of a program: the blocks of its functions in source
/// order.
pub open spec fn program_asm(program: ProgramView) -> Seq<char> {
    functions_asm(program.functions, 0)
}

/// A code generator and the text that it has written so far.
#[derive(Debug)]
pub struct CodeGenerator {
    output: String,
}

impl View for CodeGenerator {
    type V = Seq<char>;

    closed spec fn view(&self) -> Seq<char> {
        self.output@
    }
}

impl CodeGenerator {
    /// A generator that has written nothing.
    pub fn new() -> (r: Self)
        ensures
            r@ == Seq::<char>::empty(),
    {
        CodeGenerator { output: String::new() }
    }

    /// The text written so far.
    pub fn output(&self) -> (r: &String)
        ensures
            r@ == self@,
    {
        &self.output
    }

    /// Gives up the generator for the text that it has written.
    pub fn into_output(self) -> (r: String)
        ensures
            r@ == self@,
    {
        self.output
    }

    /// Writes the lines that leave the value of `expression` in the primary
    /// register.
    pub fn generate_expression(&mut self, expression: &Expression)
        ensures
            final(self)@ == old(self)@ + expression_asm(expression@),
        decreases expression,
    {
        match expression {
            Expression::IntLit(n) => {
                self.output.append("    mov w0, ");
                push_decimal(&mut self.output, *n);
                self.output.append("\n");
                assert(self@ =~= old(self)@ + expression_asm(expression@));
            },
            Expression::FunctionCall { name } => {
                self.output.append("    stp x29, x30, [sp, -16]!\n");
                self.output.append("    mov x29, sp\n");
                self.output.append("    bl _");
                self.output.append(name.as_str());
                self.output.append("\n");
                self.output.append("    ldp x29, x30, [sp], 16\n");
                assert(self@ =~= old(self)@ + expression_asm(expression@));
            },
            Expression::Binary { left, op, right } => {
                self.generate_expression(right);
                self.output.append("    mov w1, w0\n");
                self.generate_expression(left);
                match op {
                    Operator::Plus => self.output.append("    add w0, w0, w1\n"),
                    Operator::Minus => self.output.append("    sub w0, w0, w1\n"),
                    Operator::Star => self.output.append("    mul w0, w0, w1\n"),
                    Operator::Slash => self.output.append("    sdiv w0, w0, w1\n"),
                }
                assert(self@ =~= old(self)@ + expression_asm(expression@));
            },
        }
    }

    /// Writes the lines of one statement.
    pub fn generate_statement(&mut self, statement: &Statement)
        ensures
            final(self)@ == old(self)@ + statement_asm(statement@),
    {
        match statement {
            Statement::Return(expression) => {
                if let Some(expr) = expression {
                    self.generate_expression(expr);
                }
                self.output.append("    ret\n");
                assert(self@ =~= old(self)@ + statement_asm(statement@));
            },
        }
    }

    /// Writes the block of one function.
    pub fn generate_function(&mut self, function: &Function)
        ensures
            final(self)@ == old(self)@ + function_asm(function@),
    {
        self.output.append(".globl _");
        self.output.append(function.name.as_str());
        self.output.append("\n");
        self.output.append("_");
        self.output.append(function.name.as_str());
        self.output.append(":\n");
        let ghost head = self@;
        let ghost body = statement_views(function.body@);
        let mut i: usize = 0;
        while i < function.body.len()
            invariant
                i <= function.body@.len(),
                body == statement_views(function.body@),
                head + statements_asm(body, 0) == self@ + statements_asm(body, i as int),
            decreases function.body@.len() - i,
        {
            let ghost before = self@;
            self.generate_statement(&function.body[i]);
            assert(self@ + statements_asm(body, i + 1) =~= before + statements_asm(body, i as int));
            i += 1;
        }
        self.output.append("\n");
        assert(self@ =~= old(self)@ + function_asm(function@));
    }

    /// Writes the blocks of all functions of `program`, in source order,
    /// after what has been written before.
    pub fn generate(&mut self, program: &Program)
        ensures
            final(self)@ == old(self)@ + program_asm(program@),
    {
        let ghost functions = function_views(program.functions@);
        let mut i: usize = 0;
        assert(self@ + Seq::empty() =~= self@);
        while i < program.functions.len()
            invariant
                i <= program.functions@.len(),
                functions == function_views(program.functions@),
                old(self)@ + functions_asm(functions, 0) == self@ + functions_asm(
                    functions,
                    i as int,
                ),
            decreases program.functions@.len() - i,
        {
            let ghost before = self@;
            self.generate_function(&program.functions[i]);
            assert(self@ + functions_asm(functions, i + 1) =~= before + functions_asm(
                functions,
                i as int,
            ));
            i += 1;
        }
        assert(self@ + Seq::empty() =~= self@);
    }
}

/// The assembly text of `program`.
pub fn assemble(program: &Program) -> (r: String)
    ensures
        r@ == program_asm(program@),
{
    let mut generator = CodeGenerator::new();
    generator.generate(program);
    assert(Seq::<char>::empty() + program_asm(program@) =~= program_asm(program@));
    generator.into_output()
}

} // verus!
