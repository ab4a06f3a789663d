//! The whole pipeline: lex, parse, analyze, generate, strictly in this
//! order. The first error of the first stage that fails ends the run, and
//! then no assembly text is produced at all.

use vstd::prelude::*;
use crate::analyzer::Analyzer;
use crate::codegen::{assemble, program_asm};
use crate::ast::ExpressionView;
use crate::grammar::{
    close_group, compound_statement_at, expression_at, function_at, functions_at, program_at,
    return_statement_at, scan, yield_to, StackItem,
};
use crate::lexer::{LexError, Lexer};
use crate::lexicon::{
    advanced, lemma_numeric_run_ends, lemma_word_run_ends, lex_from, lex_text, numeric_run,
    punctuation, word_run, LexErrorView,
};
use crate::text::{letter, numeric, white_space};
use crate::parse_error::{ParseError, ParseErrorView};
use crate::parser::Parser;
use crate::token::{token_views, PositionView, Separator, Token, TokenKindView, TokenView};
use crate::typing::{check_program, AnalysisError, AnalysisErrorView};

verus! {

/// Why a text could not be compiled, as a mathematical value.
pub enum CompileErrorView {
    Lex(LexErrorView),
    Parse(ParseErrorView),
    Analysis(AnalysisErrorView),
}

/// Why a text could not be compiled: the error of the stage that failed.
#[derive(Debug, PartialEq, Eq)]
pub enum CompileError {
    Lex(LexError),
    Parse(ParseError),
    Analysis(AnalysisError),
}

impl View for CompileError {
    type V = CompileErrorView;

    open spec fn view(&self) -> CompileErrorView {
        match self {
            CompileError::Lex(e) => CompileErrorView::Lex(e@),
            CompileError::Parse(e) => CompileErrorView::Parse(e@),
            CompileError::Analysis(e) => CompileErrorView::Analysis(e@),
        }
    }
}

/// The assembly text that a sequence of tokens stands for: that of the
/// program that the tokens parse to, if that program is well typed.
pub open spec fn translate_tokens(tokens: Seq<TokenView>) -> Result<Seq<char>, CompileErrorView> {
    match program_at(tokens, 0) {
        Err(e) => Err(CompileErrorView::Parse(e)),
        Ok(program) => match check_program(program) {
            Err(e) => Err(CompileErrorView::Analysis(e)),
            Ok(_) => Ok(program_asm(program)),
        },
    }
}

/// The assembly text that the source text `contents` of the file called
/// `file` stands for.
pub open spec fn translate_text(file: Seq<char>, contents: Seq<char>) -> Result<
    Seq<char>,
    CompileErrorView,
> {
    match lex_text(file, contents) {
        Err(e) => Err(CompileErrorView::Lex(e)),
        Ok(tokens) => translate_tokens(tokens),
    }
}

/// Whether `r` is what compiling the source text `contents` of the file
/// called `file` gives: the assembly text, or the error of the first stage
/// that fails.
pub open spec fn compiles_to(
    file: Seq<char>,
    contents: Seq<char>,
    r: Result<String, CompileError>,
) -> bool {
    match translate_text(file, contents) {
        Ok(text) => r matches Ok(s) && s@ == text,
        Err(e) => r matches Err(x) && x@ == e,
    }
}

/// Compiling is a function of its input: two runs on the same text of the
/// same file end alike, with the same assembly text, character for
/// character, or with the same error.
pub proof fn law_compile_is_deterministic(
    file: Seq<char>,
    contents: Seq<char>,
    first: Result<String, CompileError>,
    second: Result<String, CompileError>,
)
    requires
        compiles_to(file, contents, first),
        compiles_to(file, contents, second),
    ensures
        match first {
            Ok(text) => second matches Ok(again) && again@ == text@,
            Err(e) => second matches Err(again) && again@ == e@,
        },
{
}

/// Parses, checks and lowers a sequence of tokens.
pub fn compile_tokens(tokens: &[Token]) -> (r: Result<String, CompileError>)
    ensures
        match translate_tokens(token_views(tokens@)) {
            Ok(text) => r matches Ok(s) && s@ == text,
            Err(e) => r matches Err(x) && x@ == e,
        },
{
    let mut parser = Parser::new(tokens);
    let program = match parser.parse() {
        Ok(program) => program,
        Err(e) => {
            return Err(CompileError::Parse(e));
        },
    };
    let mut analyzer = Analyzer::new();
    match analyzer.analyze(&program) {
        Ok(_) => {},
        Err(e) => {
            return Err(CompileError::Analysis(e));
        },
    }
    Ok(assemble(&program))
}

/// Compiles the source text `contents` of the file called `file` to
/// assembly text. The text must be short enough for its lines and columns
/// to be counted in 32 bits.
pub fn compile(file: String, contents: &str) -> (r: Result<String, CompileError>)
    requires
        contents@.len() < u32::MAX,
    ensures
        compiles_to(file@, contents@, r),
{
    let mut lexer = Lexer::new(file, contents);
    let tokens = match lexer.lex() {
        Ok(tokens) => tokens,
        Err(e) => {
            return Err(CompileError::Lex(e));
        },
    };
    compile_tokens(tokens.as_slice())
}

/// Two sequences of tokens are of the same kinds, place by place; where the
/// tokens stand in their source may differ.
pub open spec fn same_kinds(a: Seq<TokenView>, b: Seq<TokenView>) -> bool {
    &&& a.len() == b.len()
    &&& forall|i: int| 0 <= i < a.len() ==> (#[trigger] a[i]).kind == (#[trigger] b[i]).kind
}

/// Two results of parsing end alike but for the places in their errors:
/// with the same value, or both with an error.
pub open spec fn same_but_places<T>(
    a: Result<T, ParseErrorView>,
    b: Result<T, ParseErrorView>,
) -> bool {
    match a {
        Ok(value) => b == Ok::<T, ParseErrorView>(value),
        Err(_) => b is Err,
    }
}

/// Reading an expression goes the same way whatever the places of the
/// tokens.
proof fn lemma_scan_ignores_places(
    a: Seq<TokenView>,
    b: Seq<TokenView>,
    pos: int,
    operands: Seq<ExpressionView>,
    operators: Seq<StackItem>,
)
    requires
        same_kinds(a, b),
    ensures
        same_but_places(scan(a, pos, operands, operators), scan(b, pos, operands, operators)),
    decreases a.len() - pos,
{
    if 0 <= pos < a.len() {
        assert(a[pos].kind == b[pos].kind);
        if pos + 1 < a.len() {
            assert(a[pos + 1].kind == b[pos + 1].kind);
        }
        if pos + 2 < a.len() {
            assert(a[pos + 2].kind == b[pos + 2].kind);
        }
        match a[pos].kind {
            TokenKindView::IntLit(n) => {
                lemma_scan_ignores_places(
                    a,
                    b,
                    pos + 1,
                    operands.push(ExpressionView::IntLit(n)),
                    operators,
                );
            },
            TokenKindView::Identifier(name) => {
                if pos + 2 < a.len() {
                    lemma_scan_ignores_places(
                        a,
                        b,
                        pos + 3,
                        operands.push(ExpressionView::FunctionCall { name }),
                        operators,
                    );
                }
            },
            TokenKindView::Separator(Separator::LParen) => {
                lemma_scan_ignores_places(
                    a,
                    b,
                    pos + 1,
                    operands,
                    operators.push(StackItem::Marker),
                );
            },
            TokenKindView::Separator(Separator::RParen) => {
                if operators.len() > 0 {
                    match close_group(operands, operators) {
                        Ok(stacks) => {
                            lemma_scan_ignores_places(
                                a,
                                b,
                                pos + 1,
                                stacks.operands,
                                stacks.operators,
                            );
                        },
                        Err(_) => {},
                    }
                }
            },
            TokenKindView::Operator(op) => {
                match yield_to(operands, operators, op) {
                    Ok(stacks) => {
                        lemma_scan_ignores_places(
                            a,
                            b,
                            pos + 1,
                            stacks.operands,
                            stacks.operators.push(StackItem::Op(op)),
                        );
                    },
                    Err(_) => {},
                }
            },
            _ => {},
        }
    }
}

/// A statement is read the same way whatever the places of the tokens.
proof fn lemma_statement_ignores_places(a: Seq<TokenView>, b: Seq<TokenView>, pos: int)
    requires
        same_kinds(a, b),
    ensures
        same_but_places(return_statement_at(a, pos), return_statement_at(b, pos)),
{
    if 0 <= pos < a.len() {
        assert(a[pos].kind == b[pos].kind);
    }
    lemma_scan_ignores_places(a, b, pos + 1, Seq::empty(), Seq::empty());
    match expression_at(a, pos + 1) {
        Ok((e, n)) => {
            if 0 <= pos + 1 + n < a.len() {
                assert(a[pos + 1 + n].kind == b[pos + 1 + n].kind);
            }
        },
        Err(_) => {},
    }
}

/// A body is read the same way whatever the places of the tokens.
proof fn lemma_body_ignores_places(a: Seq<TokenView>, b: Seq<TokenView>, pos: int)
    requires
        same_kinds(a, b),
    ensures
        same_but_places(compound_statement_at(a, pos), compound_statement_at(b, pos)),
    decreases a.len() - pos,
{
    if 0 <= pos < a.len() {
        assert(a[pos].kind == b[pos].kind);
        lemma_statement_ignores_places(a, b, pos);
        match return_statement_at(a, pos) {
            Ok((statement, n)) => {
                lemma_body_ignores_places(a, b, pos + n);
            },
            Err(_) => {},
        }
    }
}

/// A function is read the same way whatever the places of the tokens.
proof fn lemma_function_ignores_places(a: Seq<TokenView>, b: Seq<TokenView>, pos: int)
    requires
        same_kinds(a, b),
    ensures
        same_but_places(function_at(a, pos), function_at(b, pos)),
{
    if 0 <= pos < a.len() {
        assert(a[pos].kind == b[pos].kind);
    }
    if 0 <= pos + 1 < a.len() {
        assert(a[pos + 1].kind == b[pos + 1].kind);
    }
    if 0 <= pos + 2 < a.len() {
        assert(a[pos + 2].kind == b[pos + 2].kind);
    }
    if 0 <= pos + 3 < a.len() {
        assert(a[pos + 3].kind == b[pos + 3].kind);
    }
    if 0 <= pos + 4 < a.len() {
        assert(a[pos + 4].kind == b[pos + 4].kind);
    }
    lemma_body_ignores_places(a, b, pos + 5);
    match compound_statement_at(a, pos + 5) {
        Ok((body, n)) => {
            if 0 <= pos + 5 + n < a.len() {
                assert(a[pos + 5 + n].kind == b[pos + 5 + n].kind);
            }
        },
        Err(_) => {},
    }
}

/// Functions are read the same way whatever the places of the tokens.
proof fn lemma_functions_ignore_places(a: Seq<TokenView>, b: Seq<TokenView>, pos: int)
    requires
        same_kinds(a, b),
    ensures
        same_but_places(functions_at(a, pos), functions_at(b, pos)),
    decreases a.len() - pos,
{
    if 0 <= pos < a.len() {
        lemma_function_ignores_places(a, b, pos);
        match function_at(a, pos) {
            Ok((function, n)) => {
                lemma_functions_ignore_places(a, b, pos + n);
            },
            Err(_) => {},
        }
    }
}

/// The assembly text depends on the kinds of the tokens alone: two
/// sequences of tokens of the same kinds give the same text, or both an
/// error, wherever their tokens stand in their sources.
pub proof fn law_assembly_ignores_places(a: Seq<TokenView>, b: Seq<TokenView>)
    requires
        same_kinds(a, b),
    ensures
        match translate_tokens(a) {
            Ok(text) => translate_tokens(b) == Ok::<Seq<char>, CompileErrorView>(text),
            Err(_) => translate_tokens(b) is Err,
        },
{
    lemma_functions_ignore_places(a, b, 0);
}

/// The kinds of the tokens of a text do not depend on the place from
/// which the lexer counts.
proof fn lemma_lex_ignores_places(chars: Seq<char>, i: int, p: PositionView, q: PositionView)
    ensures
        match lex_from(chars, i, p) {
            Ok(tokens) => lex_from(chars, i, q) matches Ok(others) && same_kinds(tokens, others),
            Err(_) => lex_from(chars, i, q) is Err,
        },
    decreases chars.len() - i,
{
    if 0 <= i < chars.len() {
        let c = chars[i];
        if punctuation(c) is Some {
            lemma_lex_ignores_places(chars, i + 1, p, q);
        } else if white_space(c) {
            lemma_lex_ignores_places(chars, i + 1, p.after(c), q.after(c));
        } else if letter(c) {
            let n = word_run(chars, i + 1);
            lemma_word_run_ends(chars, i + 1);
            lemma_lex_ignores_places(
                chars,
                i + 1 + n,
                advanced(p, chars, i + 1, n),
                advanced(q, chars, i + 1, n),
            );
        } else if numeric(c) {
            let n = numeric_run(chars, i + 1);
            lemma_numeric_run_ends(chars, i + 1);
            lemma_lex_ignores_places(
                chars,
                i + 1 + n,
                advanced(p, chars, i + 1, n),
                advanced(q, chars, i + 1, n),
            );
        }
    }
}

/// The assembly text depends on the characters of the source alone: the
/// same text under two file names compiles to the same assembly text, or
/// fails under both.
pub proof fn law_assembly_ignores_file_name(
    file: Seq<char>,
    other: Seq<char>,
    contents: Seq<char>,
)
    ensures
        match translate_text(file, contents) {
            Ok(text) => translate_text(other, contents) == Ok::<Seq<char>, CompileErrorView>(
                text,
            ),
            Err(_) => translate_text(other, contents) is Err,
        },
{
    let p = PositionView { file, line: 1, col: 1 };
    let q = PositionView { file: other, line: 1, col: 1 };
    lemma_lex_ignores_places(contents, 0, p, q);
    match lex_text(file, contents) {
        Ok(tokens) => {
            law_assembly_ignores_places(tokens, lex_text(other, contents)->Ok_0);
        },
        Err(_) => {},
    }
}

} // verus!
