use rcc::parse_error::{Expected, ParseError};
use rcc::symbol_table::{Scope, Symbol, SymbolKind, SymbolTable};
use rcc::token::{Keyword, Operator, Position, Precedence, Separator, Token, TokenKind, Type};
use rcc::token_stream::TokenStream;

fn int_function() -> Symbol {
    Symbol { kind: SymbolKind::Function, ty: Type::Int }
}

fn void_variable() -> Symbol {
    Symbol { kind: SymbolKind::Variable, ty: Type::Void }
}

fn token(kind: TokenKind) -> Token {
    Token { kind, pos: Default::default() }
}

#[test]
fn scope_binds_overwrites_and_removes() {
    let mut scope = Scope::new();
    let f = "f".to_string();
    let g = "g".to_string();
    assert_eq!(scope.get(&f), None);
    scope.insert(f.clone(), int_function());
    scope.insert(g.clone(), int_function());
    assert_eq!(scope.get(&f), Some(int_function()));
    scope.insert(f.clone(), void_variable());
    assert_eq!(scope.get(&f), Some(void_variable()));
    assert_eq!(scope.get(&g), Some(int_function()));
    scope.remove(&f);
    assert_eq!(scope.get(&f), None);
    assert_eq!(scope.get(&g), Some(int_function()));
    scope.remove(&f);
    assert_eq!(scope.get(&g), Some(int_function()));
}

#[test]
fn inner_scopes_shadow_outer_ones() {
    let mut table = SymbolTable::new();
    assert_eq!(table.get("f"), None);
    table.insert("f".to_string(), int_function());
    table.enter_scope();
    assert_eq!(table.get("f"), Some(int_function()));
    table.insert("f".to_string(), void_variable());
    table.insert("x".to_string(), void_variable());
    assert_eq!(table.get("f"), Some(void_variable()));
    assert_eq!(table.get("x"), Some(void_variable()));
    table.exit_scope();
    assert_eq!(table.get("f"), Some(int_function()));
    assert_eq!(table.get("x"), None);
}

#[test]
fn a_later_insert_overwrites_in_the_same_scope() {
    let mut table = SymbolTable::new();
    table.insert("f".to_string(), int_function());
    table.insert("f".to_string(), void_variable());
    assert_eq!(table.get("f"), Some(void_variable()));
}

#[test]
fn remove_takes_a_name_out_of_the_innermost_scope_only() {
    let mut table = SymbolTable::new();
    table.insert("f".to_string(), int_function());
    table.enter_scope();
    table.insert("f".to_string(), void_variable());
    table.remove("f");
    assert_eq!(table.get("f"), Some(int_function()));
    table.remove("f");
    assert_eq!(table.get("f"), Some(int_function()));
    table.exit_scope();
    table.remove("f");
    assert_eq!(table.get("f"), None);
}

#[test]
fn precedence_of_each_operator() {
    assert_eq!(Operator::Plus.precedence(), 1);
    assert_eq!(Operator::Minus.precedence(), 1);
    assert_eq!(Operator::Star.precedence(), 2);
    assert_eq!(Operator::Slash.precedence(), 2);
}

#[test]
fn stream_peeks_without_consuming() {
    let tokens = vec![token(TokenKind::IntLit(1)), token(TokenKind::IntLit(2))];
    let mut stream = TokenStream::new(&tokens);
    assert_eq!(stream.peek(), Some(&tokens[0]));
    assert_eq!(stream.peek(), Some(&tokens[0]));
    assert_eq!(stream.next(), Some(&tokens[0]));
    assert_eq!(stream.peek(), Some(&tokens[1]));
    assert_eq!(stream.next(), Some(&tokens[1]));
    assert_eq!(stream.peek(), None);
    assert_eq!(stream.next(), None);
    assert_eq!(stream.next(), None);
}

#[test]
fn stream_expects_a_kind() {
    let tokens = vec![
        token(TokenKind::Separator(Separator::LParen)),
        Token {
            kind: TokenKind::Identifier("x".to_string()),
            pos: Position::at("a.c".to_string(), 4, 2),
        },
    ];
    let mut stream = TokenStream::new(&tokens);
    assert_eq!(stream.expect(TokenKind::Separator(Separator::LParen)), Ok(()));
    assert_eq!(
        stream.expect(TokenKind::Separator(Separator::RParen)),
        Err(ParseError::UnexpectedToken {
            expected: Expected::Kind(TokenKind::Separator(Separator::RParen)),
            found: TokenKind::Identifier("x".to_string()),
            position: Position::at("a.c".to_string(), 4, 2),
        })
    );
    // The token that was refused is consumed all the same.
    assert_eq!(
        stream.expect(TokenKind::Separator(Separator::RParen)),
        Err(ParseError::UnexpectedEndOfInput {
            expected: Expected::Kind(TokenKind::Separator(Separator::RParen)),
        })
    );
}

#[test]
fn stream_expects_an_identifier() {
    let tokens = vec![token(TokenKind::Identifier("main".to_string())), token(TokenKind::IntLit(1))];
    let mut stream = TokenStream::new(&tokens);
    assert_eq!(stream.expect_identifier(), Ok("main".to_string()));
    assert_eq!(
        stream.expect_identifier(),
        Err(ParseError::UnexpectedToken {
            expected: Expected::Identifier,
            found: TokenKind::IntLit(1),
            position: Position::default(),
        })
    );
    assert_eq!(
        stream.expect_identifier(),
        Err(ParseError::UnexpectedEndOfInput { expected: Expected::Identifier })
    );
}

#[test]
fn stream_expects_one_of_several_kinds() {
    let wanted = vec![TokenKind::Type(Type::Int), TokenKind::Type(Type::Void)];
    let tokens = vec![
        token(TokenKind::Type(Type::Void)),
        token(TokenKind::Keyword(Keyword::Return)),
    ];
    let mut stream = TokenStream::new(&tokens);
    assert_eq!(stream.expect_any_of(&wanted), Ok(()));
    assert_eq!(
        stream.expect_any_of(&wanted),
        Err(ParseError::UnexpectedToken {
            expected: Expected::AnyOf(wanted.clone()),
            found: TokenKind::Keyword(Keyword::Return),
            position: Position::default(),
        })
    );
    assert_eq!(
        stream.expect_any_of(&wanted),
        Err(ParseError::UnexpectedEndOfInput { expected: Expected::AnyOf(wanted.clone()) })
    );
    let mut empty = TokenStream::new(&tokens);
    assert_eq!(
        empty.expect_any_of(&[]),
        Err(ParseError::UnexpectedToken {
            expected: Expected::AnyOf(vec![]),
            found: TokenKind::Type(Type::Void),
            position: Position::default(),
        })
    );
}

#[test]
fn token_kinds_compare_by_content() {
    let x = TokenKind::Identifier("x".to_string());
    assert!(x.same_as(&TokenKind::Identifier("x".to_string())));
    assert!(!x.same_as(&TokenKind::Identifier("y".to_string())));
    assert!(!x.same_as(&TokenKind::IntLit(1)));
    assert!(TokenKind::IntLit(1).same_as(&TokenKind::IntLit(1)));
    assert!(!TokenKind::IntLit(1).same_as(&TokenKind::IntLit(2)));
    assert!(!TokenKind::Type(Type::Int).same_as(&TokenKind::Type(Type::Void)));
    assert_eq!(x.clone(), x);
}

#[test]
fn tokens_are_described_for_a_listing() {
    assert_eq!(TokenKind::Identifier("main".to_string()).describe(), "identifier 'main'");
    assert_eq!(TokenKind::Keyword(Keyword::Return).describe(), "return 'return'");
    assert_eq!(TokenKind::Type(Type::Int).describe(), "int 'int'");
    assert_eq!(TokenKind::Type(Type::Void).describe(), "void 'void'");
    assert_eq!(TokenKind::Separator(Separator::LParen).describe(), "left parenthesis '('");
    assert_eq!(TokenKind::Separator(Separator::RParen).describe(), "right parenthesis ')'");
    assert_eq!(TokenKind::Separator(Separator::LBrace).describe(), "left brace '{'");
    assert_eq!(TokenKind::Separator(Separator::RBrace).describe(), "right brace '}'");
    assert_eq!(TokenKind::Separator(Separator::Semi).describe(), "semicolon ';'");
    assert_eq!(TokenKind::Operator(Operator::Plus).describe(), "plus '+'");
    assert_eq!(TokenKind::Operator(Operator::Minus).describe(), "minus '-'");
    assert_eq!(TokenKind::Operator(Operator::Star).describe(), "star '*'");
    assert_eq!(TokenKind::Operator(Operator::Slash).describe(), "slash '/'");
    assert_eq!(TokenKind::IntLit(305).describe(), "numeric_constant '305'");
    assert_eq!(Position::at("dir/a.c".to_string(), 12, 7).describe(), "dir/a.c:12:7");
    let t = Token { kind: TokenKind::IntLit(0), pos: Position::at("a.c".to_string(), 1, 10) };
    assert_eq!(t.describe(), "numeric_constant '0'      Loc=<a.c:1:10>");
    assert_eq!(t.clone(), t);
}
