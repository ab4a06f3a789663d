use rcc::analyzer::{analyze, Analyzer};
use rcc::ast::{Expression, Function, Program, Statement};
use rcc::codegen::{assemble, CodeGenerator};
use rcc::compiler::{compile, compile_tokens, CompileError};
use rcc::lexer::{LexError, Lexer};
use rcc::parse_error::{Expected, InvalidReason, ParseError};
use rcc::parser::Parser;
use rcc::token::{Keyword, Operator, Position, Separator, Token, TokenKind, Type};
use rcc::typing::AnalysisError;

fn lex(text: &str) -> Vec<Token> {
    Lexer::new("t.c".to_string(), text).lex().unwrap()
}

fn kinds(text: &str) -> Vec<TokenKind> {
    lex(text).into_iter().map(|t| t.kind).collect()
}

fn parse(text: &str) -> Result<Program, ParseError> {
    let tokens = lex(text);
    Parser::new(&tokens).parse()
}

fn returned(text: &str) -> Result<Option<Expression>, ParseError> {
    let source = format!("int f(){{ return {}; }}", text);
    let program = parse(&source)?;
    assert_eq!(program.functions.len(), 1);
    let f = &program.functions[0];
    assert_eq!(f.name, "f");
    assert_eq!(f.return_type, Type::Int);
    assert_eq!(f.body.len(), 1);
    match &f.body[0] {
        Statement::Return(e) => Ok(e.clone()),
    }
}

// The place of a token in the file that `lex` reads.
fn at(line: u32, col: u32) -> Option<Position> {
    Some(Position::at("t.c".to_string(), line, col))
}

fn lit(n: u32) -> Expression {
    Expression::IntLit(n)
}

fn bin(left: Expression, op: Operator, right: Expression) -> Expression {
    Expression::Binary { left: Box::new(left), op, right: Box::new(right) }
}

fn call(name: &str) -> Expression {
    Expression::FunctionCall { name: name.to_string() }
}

#[test]
fn compiles_main_returning_a_literal() {
    let text = compile("main.c".to_string(), "int main(){ return 42; }").unwrap();
    assert_eq!(text, ".globl _main\n_main:\n    mov w0, 42\n    ret\n\n");
    let lines: Vec<&str> = text.lines().collect();
    assert_eq!(&lines[..4], &[".globl _main", "_main:", "    mov w0, 42", "    ret"]);
}

#[test]
fn compiling_twice_gives_the_same_text() {
    let source = "int one(){ return 1; }\nint main(){ return one() + 2 * (3 - one()); }\n";
    let first = compile("a.c".to_string(), source);
    let second = compile("a.c".to_string(), source);
    assert!(first.is_ok());
    assert_eq!(first, second);
    let other_file = compile("b.c".to_string(), source);
    assert_eq!(first.unwrap(), other_file.unwrap());
}

#[test]
fn empty_text_is_an_empty_program() {
    assert_eq!(compile("e.c".to_string(), ""), Ok(String::new()));
    assert_eq!(compile("e.c".to_string(), " \n\t "), Ok(String::new()));
    assert_eq!(parse("").unwrap(), Program { functions: vec![] });
    assert_eq!(compile_tokens(&[]), Ok(String::new()));
}

#[test]
fn lexes_every_kind_of_token() {
    assert_eq!(
        kinds("int void return foo_1 ( ) { } ; + - * / 0 42"),
        vec![
            TokenKind::Type(Type::Int),
            TokenKind::Type(Type::Void),
            TokenKind::Keyword(Keyword::Return),
            TokenKind::Identifier("foo_1".to_string()),
            TokenKind::Separator(Separator::LParen),
            TokenKind::Separator(Separator::RParen),
            TokenKind::Separator(Separator::LBrace),
            TokenKind::Separator(Separator::RBrace),
            TokenKind::Separator(Separator::Semi),
            TokenKind::Operator(Operator::Plus),
            TokenKind::Operator(Operator::Minus),
            TokenKind::Operator(Operator::Star),
            TokenKind::Operator(Operator::Slash),
            TokenKind::IntLit(0),
            TokenKind::IntLit(42),
        ]
    );
}

#[test]
fn words_that_only_start_like_keywords_are_identifiers() {
    assert_eq!(
        kinds("integer returns voided Int"),
        vec![
            TokenKind::Identifier("integer".to_string()),
            TokenKind::Identifier("returns".to_string()),
            TokenKind::Identifier("voided".to_string()),
            TokenKind::Identifier("Int".to_string()),
        ]
    );
}

#[test]
fn tokens_need_no_space_between_them() {
    assert_eq!(
        kinds("f()+12*x"),
        vec![
            TokenKind::Identifier("f".to_string()),
            TokenKind::Separator(Separator::LParen),
            TokenKind::Separator(Separator::RParen),
            TokenKind::Operator(Operator::Plus),
            TokenKind::IntLit(12),
            TokenKind::Operator(Operator::Star),
            TokenKind::Identifier("x".to_string()),
        ]
    );
}

#[test]
fn number_literals_are_decimal_and_fit_in_32_bits() {
    assert_eq!(kinds("4294967295"), vec![TokenKind::IntLit(4294967295)]);
    assert_eq!(kinds("007"), vec![TokenKind::IntLit(7)]);
    assert_eq!(
        Lexer::new("t.c".to_string(), "4294967296").lex(),
        Err(LexError::InvalidNumber { position: Position::at("t.c".to_string(), 1, 1) })
    );
    assert_eq!(
        Lexer::new("t.c".to_string(), "99999999999999999999999").lex(),
        Err(LexError::InvalidNumber { position: Position::at("t.c".to_string(), 1, 1) })
    );
    // A numeric character that is no decimal digit.
    assert_eq!(
        Lexer::new("t.c".to_string(), "1\u{0663}").lex(),
        Err(LexError::InvalidNumber { position: Position::at("t.c".to_string(), 1, 1) })
    );
}

#[test]
fn a_character_that_starts_no_token_is_an_error() {
    assert_eq!(
        Lexer::new("t.c".to_string(), "\n\n  #").lex(),
        Err(LexError::UnexpectedCharacter {
            found: '#',
            position: Position::at("t.c".to_string(), 3, 3),
        })
    );
    assert_eq!(
        compile("t.c".to_string(), "_x"),
        Err(CompileError::Lex(LexError::UnexpectedCharacter {
            found: '_',
            position: Position::at("t.c".to_string(), 1, 1),
        }))
    );
}

#[test]
fn places_count_white_space_and_the_rest_of_words() {
    let tokens = lex("int\n  main");
    assert_eq!(tokens.len(), 2);
    assert_eq!(tokens[0].pos, Position::at("t.c".to_string(), 1, 1));
    assert_eq!(tokens[0].pos.line(), 1);
    assert_eq!(tokens[0].pos.col(), 1);
    assert_eq!(tokens[0].pos.file(), "t.c");
    // `nt` moves two columns, the line feed starts line two, two blanks follow.
    assert_eq!(tokens[1].pos, Position::at("t.c".to_string(), 2, 3));
}

#[test]
fn position_advances_by_line_and_column() {
    let mut p = Position::new("x.c".to_string());
    assert_eq!(p, Position::at("x.c".to_string(), 1, 1));
    p.advance('a');
    assert_eq!(p, Position::at("x.c".to_string(), 1, 2));
    p.advance('\n');
    assert_eq!(p, Position::at("x.c".to_string(), 2, 1));
    assert_eq!(Position::default(), Position::at("unknown".to_string(), 1, 1));
}

#[test]
fn parses_literals_and_each_operator() {
    assert_eq!(returned("7").unwrap(), Some(lit(7)));
    assert_eq!(returned("1 + 2").unwrap(), Some(bin(lit(1), Operator::Plus, lit(2))));
    assert_eq!(returned("1 - 2").unwrap(), Some(bin(lit(1), Operator::Minus, lit(2))));
    assert_eq!(returned("1 * 2").unwrap(), Some(bin(lit(1), Operator::Star, lit(2))));
    assert_eq!(returned("1 / 2").unwrap(), Some(bin(lit(1), Operator::Slash, lit(2))));
    assert_eq!(returned("g()").unwrap(), Some(call("g")));
    assert_eq!(returned("").unwrap(), None);
}

#[test]
fn multiplication_binds_tighter_than_addition() {
    assert_eq!(
        returned("1 * 2 + 3").unwrap(),
        Some(bin(bin(lit(1), Operator::Star, lit(2)), Operator::Plus, lit(3)))
    );
    assert_eq!(
        returned("1 + 2 * 3").unwrap(),
        Some(bin(lit(1), Operator::Plus, bin(lit(2), Operator::Star, lit(3))))
    );
    assert_eq!(
        returned("1 * (2 + 3)").unwrap(),
        Some(bin(lit(1), Operator::Star, bin(lit(2), Operator::Plus, lit(3))))
    );
    assert_eq!(
        returned("(1 + 2) * 3").unwrap(),
        Some(bin(bin(lit(1), Operator::Plus, lit(2)), Operator::Star, lit(3)))
    );
}

#[test]
fn equal_precedence_associates_to_the_left() {
    assert_eq!(
        returned("1 - 2 - 3").unwrap(),
        Some(bin(bin(lit(1), Operator::Minus, lit(2)), Operator::Minus, lit(3)))
    );
    assert_eq!(
        returned("8 / 4 * 2").unwrap(),
        Some(bin(bin(lit(8), Operator::Slash, lit(4)), Operator::Star, lit(2)))
    );
    assert_eq!(
        returned("1 - (2 - 3)").unwrap(),
        Some(bin(lit(1), Operator::Minus, bin(lit(2), Operator::Minus, lit(3))))
    );
}

#[test]
fn unbalanced_parentheses_are_mismatched() {
    // Noticed at the semicolon, where the expression ends.
    assert_eq!(returned("(()"), Err(ParseError::MismatchedParentheses { at: at(1, 11) }));
    assert_eq!(returned("(1 + 2"), Err(ParseError::MismatchedParentheses { at: at(1, 13) }));
    // Noticed at the parenthesis that closes nothing.
    assert_eq!(returned(") 1"), Err(ParseError::MismatchedParentheses { at: at(1, 11) }));
    assert_eq!(returned("()  ) "), Err(ParseError::MismatchedParentheses { at: at(1, 13) }));
}

#[test]
fn errors_at_the_end_of_the_tokens_have_no_place() {
    let tokens = lex("(1");
    assert_eq!(
        Parser::new(&tokens).parse_expression(),
        Err(ParseError::MismatchedParentheses { at: None })
    );
    let tokens = lex("1 +");
    assert_eq!(
        Parser::new(&tokens).parse_expression(),
        Err(ParseError::InvalidExpression { reason: InvalidReason::NotEnoughOperands, at: None })
    );
    let tokens = lex("1 2");
    assert_eq!(
        Parser::new(&tokens).parse_expression(),
        Err(ParseError::InvalidExpression { reason: InvalidReason::TooManyOperands, at: None })
    );
}

#[test]
fn a_closing_parenthesis_closes_up_to_the_last_open_one() {
    // With operators waiting and nothing open, the parenthesis applies them.
    let tokens = lex("1 + 2 )");
    assert_eq!(
        Parser::new(&tokens).parse_expression(),
        Ok(Some(bin(lit(1), Operator::Plus, lit(2))))
    );
    assert_eq!(returned("((1))").unwrap(), Some(lit(1)));
    assert_eq!(returned("()").unwrap(), None);
}

#[test]
fn operands_and_operators_must_leave_one_value() {
    assert_eq!(
        returned("1 2"),
        Err(ParseError::InvalidExpression {
            reason: InvalidReason::TooManyOperands,
            at: at(1, 12),
        })
    );
    assert_eq!(
        returned("1 +"),
        Err(ParseError::InvalidExpression {
            reason: InvalidReason::NotEnoughOperands,
            at: at(1, 12),
        })
    );
    assert_eq!(
        returned("+ 1"),
        Err(ParseError::InvalidExpression {
            reason: InvalidReason::NotEnoughOperands,
            at: at(1, 12),
        })
    );
    // Noticed at the second operator, which first applies the one before it.
    assert_eq!(
        returned("*  /"),
        Err(ParseError::InvalidExpression {
            reason: InvalidReason::NotEnoughOperands,
            at: at(1, 13),
        })
    );
    // Noticed at the parenthesis, which applies the operator.
    assert_eq!(
        returned("(1 +  )"),
        Err(ParseError::InvalidExpression {
            reason: InvalidReason::NotEnoughOperands,
            at: at(1, 14),
        })
    );
    assert_eq!(
        returned("(1 + 2) 3"),
        Err(ParseError::InvalidExpression {
            reason: InvalidReason::TooManyOperands,
            at: at(1, 14),
        })
    );
}

#[test]
fn an_identifier_in_an_expression_must_be_a_call() {
    let tokens = lex("x + 1");
    let found = Parser::new(&tokens).parse_expression();
    assert_eq!(
        found,
        Err(ParseError::UnexpectedToken {
            expected: Expected::Kind(TokenKind::Separator(Separator::LParen)),
            found: TokenKind::Operator(Operator::Plus),
            position: Position::at("t.c".to_string(), 1, 2),
        })
    );
    let tokens = lex("x(");
    assert_eq!(
        Parser::new(&tokens).parse_expression(),
        Err(ParseError::UnexpectedEndOfInput {
            expected: Expected::Kind(TokenKind::Separator(Separator::RParen)),
        })
    );
}

#[test]
fn function_headers_are_checked_token_by_token() {
    assert_eq!(
        parse("main"),
        Err(ParseError::UnexpectedToken {
            expected: Expected::Type,
            found: TokenKind::Identifier("main".to_string()),
            position: Position::at("t.c".to_string(), 1, 1),
        })
    );
    assert_eq!(
        parse("int"),
        Err(ParseError::UnexpectedEndOfInput { expected: Expected::Identifier })
    );
    assert_eq!(
        parse("int 3"),
        Err(ParseError::UnexpectedToken {
            expected: Expected::Identifier,
            found: TokenKind::IntLit(3),
            position: Position::at("t.c".to_string(), 1, 4),
        })
    );
    assert_eq!(
        parse("int f(){"),
        Err(ParseError::UnexpectedEndOfInput { expected: Expected::Statement })
    );
    assert_eq!(
        parse("int f(){ return 1 }"),
        Err(ParseError::UnexpectedToken {
            expected: Expected::Kind(TokenKind::Separator(Separator::Semi)),
            found: TokenKind::Separator(Separator::RBrace),
            position: Position::at("t.c".to_string(), 1, 12),
        })
    );
}

#[test]
fn only_return_starts_a_statement() {
    assert_eq!(
        parse("int f(){ 1; }"),
        Err(ParseError::Unimplemented {
            found: TokenKind::IntLit(1),
            position: Position::at("t.c".to_string(), 1, 5),
        })
    );
}

#[test]
fn parses_several_functions_in_order() {
    let program = parse("void a(){ return; } int b(){ return 1; return 2; }").unwrap();
    assert_eq!(
        program,
        Program {
            functions: vec![
                Function {
                    return_type: Type::Void,
                    name: "a".to_string(),
                    body: vec![Statement::Return(None)],
                },
                Function {
                    return_type: Type::Int,
                    name: "b".to_string(),
                    body: vec![Statement::Return(Some(lit(1))), Statement::Return(Some(lit(2)))],
                },
            ],
        }
    );
}

#[test]
fn analyzer_accepts_well_typed_programs() {
    assert_eq!(Analyzer::new().analyze(&parse("int f(){ return 1; }").unwrap()), Ok(()));
    assert_eq!(Analyzer::new().analyze(&parse("void f(){ return; }").unwrap()), Ok(()));
    assert_eq!(Analyzer::new().analyze(&parse("int f(){ return f(); }").unwrap()), Ok(()));
    assert_eq!(
        analyze(parse("int one(){ return 1; } int two(){ return one() + one(); }").unwrap()),
        Ok(())
    );
    assert_eq!(analyze(Program { functions: vec![] }), Ok(()));
}

#[test]
fn analyzer_rejects_a_bare_return_in_an_int_function() {
    assert_eq!(
        Analyzer::new().analyze(&parse("int f(){ return; }").unwrap()),
        Err(AnalysisError::ReturnTypeMismatch { expected: Type::Int, found: Type::Void })
    );
    assert_eq!(
        analyze(parse("void f(){ return 1; }").unwrap()),
        Err(AnalysisError::ReturnTypeMismatch { expected: Type::Void, found: Type::Int })
    );
}

#[test]
fn analyzer_rejects_a_call_of_an_undeclared_name() {
    assert_eq!(
        Analyzer::new().analyze(&parse("int f(){ return g(); }").unwrap()),
        Err(AnalysisError::UndefinedSymbol { name: "g".to_string() })
    );
    // A function is declared only from its own definition on.
    assert_eq!(
        analyze(parse("int f(){ return g(); } int g(){ return 1; }").unwrap()),
        Err(AnalysisError::UndefinedSymbol { name: "g".to_string() })
    );
}

#[test]
fn analyzer_rejects_operands_of_different_types() {
    assert_eq!(
        analyze(parse("void v(){ return; } int f(){ return 1 + v(); }").unwrap()),
        Err(AnalysisError::TypeMismatch { left: Type::Int, right: Type::Void })
    );
    assert_eq!(
        analyze(parse("void v(){ return; } int f(){ return v() * 2; }").unwrap()),
        Err(AnalysisError::TypeMismatch { left: Type::Void, right: Type::Int })
    );
    // The first error in source order is the one reported.
    assert_eq!(
        analyze(parse("void v(){ return; } int f(){ return (1 + v()) + u(); }").unwrap()),
        Err(AnalysisError::TypeMismatch { left: Type::Int, right: Type::Void })
    );
    assert_eq!(
        analyze(parse("void v(){ return; } int f(){ return u() + (1 + v()); }").unwrap()),
        Err(AnalysisError::UndefinedSymbol { name: "u".to_string() })
    );
}

#[test]
fn analyzer_can_go_on_after_an_error() {
    let mut analyzer = Analyzer::new();
    let bad = parse("int f(){ return; }").unwrap();
    assert!(analyzer.analyze(&bad).is_err());
    // The scope of the failed body was left again, and `f` is declared.
    let next = parse("int g(){ return f(); }").unwrap();
    assert_eq!(analyzer.analyze(&next), Ok(()));
    assert_eq!(analyzer.analyze_expression(&Some(call("g"))), Ok(Type::Int));
    assert_eq!(analyzer.analyze_expression(&None), Ok(Type::Void));
    assert_eq!(analyzer.expression_type(&lit(3)), Ok(Type::Int));
    assert_eq!(
        analyzer.analyze_statement(&Statement::Return(None), &Type::Int),
        Err(AnalysisError::ReturnTypeMismatch { expected: Type::Int, found: Type::Void })
    );
}

#[test]
fn errors_of_each_stage_end_the_pipeline() {
    assert_eq!(
        compile("t.c".to_string(), "int f(){ return (; }"),
        Err(CompileError::Parse(ParseError::MismatchedParentheses { at: at(1, 11) }))
    );
    assert_eq!(
        compile("t.c".to_string(), "int f(){ return g(); }"),
        Err(CompileError::Analysis(AnalysisError::UndefinedSymbol { name: "g".to_string() }))
    );
    assert_eq!(
        compile("t.c".to_string(), "int f(){ return 1; } ?"),
        Err(CompileError::Lex(LexError::UnexpectedCharacter {
            found: '?',
            position: Position::at("t.c".to_string(), 1, 13),
        }))
    );
}

#[test]
fn generates_a_call_with_its_frame() {
    let program = parse("int g(){ return 1; } int f(){ return g(); }").unwrap();
    assert_eq!(
        assemble(&program),
        concat_lines(&[
            ".globl _g",
            "_g:",
            "    mov w0, 1",
            "    ret",
            "",
            ".globl _f",
            "_f:",
            "    stp x29, x30, [sp, -16]!",
            "    mov x29, sp",
            "    bl _g",
            "    ldp x29, x30, [sp], 16",
            "    ret",
            "",
        ])
    );
}

fn concat_lines(lines: &[&str]) -> String {
    let mut s = String::new();
    for l in lines {
        s.push_str(l);
        s.push('\n');
    }
    s
}

#[test]
fn generates_the_right_operand_first() {
    let program = parse("int f(){ return 7 - 2; }").unwrap();
    assert_eq!(
        assemble(&program),
        concat_lines(&[
            ".globl _f",
            "_f:",
            "    mov w0, 2",
            "    mov w1, w0",
            "    mov w0, 7",
            "    sub w0, w0, w1",
            "    ret",
            "",
        ])
    );
}

#[test]
fn generates_each_operator() {
    let mut g = CodeGenerator::new();
    g.generate_expression(&bin(lit(1), Operator::Plus, lit(2)));
    g.generate_expression(&bin(lit(3), Operator::Star, lit(4)));
    g.generate_expression(&bin(lit(5), Operator::Slash, lit(6)));
    assert_eq!(
        g.output().as_str(),
        concat_lines(&[
            "    mov w0, 2",
            "    mov w1, w0",
            "    mov w0, 1",
            "    add w0, w0, w1",
            "    mov w0, 4",
            "    mov w1, w0",
            "    mov w0, 3",
            "    mul w0, w0, w1",
            "    mov w0, 6",
            "    mov w1, w0",
            "    mov w0, 5",
            "    sdiv w0, w0, w1",
        ])
    );
}

#[test]
fn generates_nested_operations_through_the_secondary_register() {
    let mut g = CodeGenerator::new();
    g.generate_expression(&bin(lit(1), Operator::Plus, bin(lit(2), Operator::Star, lit(3))));
    assert_eq!(
        g.into_output(),
        concat_lines(&[
            "    mov w0, 3",
            "    mov w1, w0",
            "    mov w0, 2",
            "    mul w0, w0, w1",
            "    mov w1, w0",
            "    mov w0, 1",
            "    add w0, w0, w1",
        ])
    );
}

#[test]
fn generates_statements_and_functions_after_what_is_there() {
    let mut g = CodeGenerator::new();
    g.generate_statement(&Statement::Return(None));
    g.generate_statement(&Statement::Return(Some(lit(0))));
    assert_eq!(g.output().as_str(), "    ret\n    mov w0, 0\n    ret\n");
    g.generate_function(&Function {
        return_type: Type::Void,
        name: "v".to_string(),
        body: vec![],
    });
    assert_eq!(g.output().as_str(), "    ret\n    mov w0, 0\n    ret\n.globl _v\n_v:\n\n");
    g.generate(&Program { functions: vec![] });
    assert_eq!(g.output().as_str(), "    ret\n    mov w0, 0\n    ret\n.globl _v\n_v:\n\n");
}

#[test]
fn literals_are_written_in_decimal() {
    for (n, text) in [(0u32, "0"), (9, "9"), (10, "10"), (105, "105"), (4294967295, "4294967295")] {
        let mut g = CodeGenerator::new();
        g.generate_expression(&lit(n));
        assert_eq!(g.into_output(), format!("    mov w0, {}\n", text));
    }
}
