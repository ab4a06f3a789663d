//! Tokens: the classified lexical units that the parser reads, each with the
//! place in the source text where it starts.

use vstd::prelude::*;
use vstd::string::*;
use crate::text::{decimal, push_decimal};

verus! {

/// The reserved words that start a statement.
#[derive(Clone, Copy, Debug, PartialEq, Eq, Structural)]
pub enum Keyword {
    Return,
}

/// The two value types of the language.
#[derive(Clone, Copy, Debug, PartialEq, Eq, Structural)]
pub enum Type {
    Int,
    Void,
}

/// Punctuation that separates the parts of a program.
#[derive(Clone, Copy, Debug, PartialEq, Eq, Structural)]
pub enum Separator {
    LParen,
    RParen,
    LBrace,
    RBrace,
    Semi,
}

/// The four binary arithmetic operators.
#[derive(Clone, Copy, Debug, PartialEq, Eq, Structural)]
pub enum Operator {
    Plus,
    Minus,
    Star,
    Slash,
}

/// How tightly an operator binds: a larger number binds tighter.
pub trait Precedence {
    /// The precedence as a mathematical value.
    spec fn precedence_level(&self) -> u8;

    /// The precedence.
    fn precedence(&self) -> (p: u8)
        ensures
            p == self.precedence_level(),
    ;
}

impl Precedence for Operator {
    open spec fn precedence_level(&self) -> u8 {
        match self {
            Operator::Plus | Operator::Minus => 1,
            Operator::Star | Operator::Slash => 2,
        }
    }

    fn precedence(&self) -> (p: u8) {
        match self {
            Operator::Plus | Operator::Minus => 1,
            Operator::Star | Operator::Slash => 2,
        }
    }
}

/// A place in a source file, as a mathematical value.
pub struct PositionView {
    pub file: Seq<char>,
    pub line: u32,
    pub col: u32,
}

/// A place in a source file: the file's name, and a line and a column that
/// both count from one.
#[derive(Debug, PartialEq, Eq)]
pub struct Position {
    file: String,
    line: u32,
    col: u32,
}

impl View for Position {
    type V = PositionView;

    closed spec fn view(&self) -> PositionView {
        PositionView { file: self.file@, line: self.line, col: self.col }
    }
}

impl Clone for Position {
    fn clone(&self) -> (r: Self)
        ensures
            r@ == self@,
    {
        Position { file: self.file.clone(), line: self.line, col: self.col }
    }
}

impl Default for Position {
    /// The place given to tokens that come from no file: line one, column
    /// one of a file called `unknown`.
    fn default() -> (r: Self)
        ensures
            r@ == (PositionView { file: "unknown"@, line: 1, col: 1 }),
    {
        Position { file: String::from_str("unknown"), line: 1, col: 1 }
    }
}

impl Position {
    /// The start of the file `file`.
    pub fn new(file: String) -> (r: Self)
        ensures
            r@ == (PositionView { file: file@, line: 1, col: 1 }),
    {
        Position { file, line: 1, col: 1 }
    }

    /// The place at the given line and column of `file`.
    pub fn at(file: String, line: u32, col: u32) -> (r: Self)
        ensures
            r@ == (PositionView { file: file@, line, col }),
    {
        Position { file, line, col }
    }

    /// The name of the file.
    pub fn file(&self) -> (r: &String)
        ensures
            r@ == self@.file,
    {
        &self.file
    }

    /// The line, counted from one.
    pub fn line(&self) -> (r: u32)
        ensures
            r == self@.line,
    {
        self.line
    }

    /// The column, counted from one.
    pub fn col(&self) -> (r: u32)
        ensures
            r == self@.col,
    {
        self.col
    }

    /// The place as text: the file's name, the line and the column, with
    /// colons between them.
    pub fn describe(&self) -> (r: String)
        ensures
            r@ == self@.text(),
    {
        let mut out = self.file.clone();
        out.append(":");
        push_decimal(&mut out, self.line);
        out.append(":");
        push_decimal(&mut out, self.col);
        out
    }

    /// Moves past the character `c`: a line feed starts the next line at
    /// column one, any other character moves one column to the right.
    pub fn advance(&mut self, c: char)
        requires
            old(self)@.line < u32::MAX,
            old(self)@.col < u32::MAX,
        ensures
            final(self)@ == old(self)@.after(c),
    {
        if c == '\n' {
            self.line += 1;
            self.col = 1;
        } else {
            self.col += 1;
        }
    }
}

impl PositionView {
    /// The place as text: the file's name, the line and the column, with
    /// colons between them.
    pub open spec fn text(self) -> Seq<char> {
        self.file + ":"@ + decimal(self.line as nat) + ":"@ + decimal(self.col as nat)
    }

    /// The place one character further, when that character is `c`.
    pub open spec fn after(self, c: char) -> PositionView {
        if c == '\n' {
            PositionView { file: self.file, line: (self.line + 1) as u32, col: 1 }
        } else {
            PositionView { file: self.file, line: self.line, col: (self.col + 1) as u32 }
        }
    }
}

/// What a token is, as a mathematical value: an identifier is the sequence
/// of its characters.
pub enum TokenKindView {
    Identifier(Seq<char>),
    Keyword(Keyword),
    Type(Type),
    Separator(Separator),
    Operator(Operator),
    IntLit(u32),
}

/// What a token is.
#[derive(Debug, PartialEq, Eq)]
pub enum TokenKind {
    Identifier(String),
    Keyword(Keyword),
    Type(Type),
    Separator(Separator),
    Operator(Operator),
    IntLit(u32),
}

impl View for TokenKind {
    type V = TokenKindView;

    open spec fn view(&self) -> TokenKindView {
        match self {
            TokenKind::Identifier(name) => TokenKindView::Identifier(name@),
            TokenKind::Keyword(k) => TokenKindView::Keyword(*k),
            TokenKind::Type(t) => TokenKindView::Type(*t),
            TokenKind::Separator(s) => TokenKindView::Separator(*s),
            TokenKind::Operator(o) => TokenKindView::Operator(*o),
            TokenKind::IntLit(n) => TokenKindView::IntLit(*n),
        }
    }
}

impl Clone for TokenKind {
    fn clone(&self) -> (r: Self)
        ensures
            r@ == self@,
    {
        match self {
            TokenKind::Identifier(name) => TokenKind::Identifier(name.clone()),
            TokenKind::Keyword(k) => TokenKind::Keyword(*k),
            TokenKind::Type(t) => TokenKind::Type(*t),
            TokenKind::Separator(s) => TokenKind::Separator(*s),
            TokenKind::Operator(o) => TokenKind::Operator(*o),
            TokenKind::IntLit(n) => TokenKind::IntLit(*n),
        }
    }
}

impl TokenKindView {
    /// The kind as text for a listing of tokens: what it is, and how it is
    /// spelled in quotes.
    pub open spec fn text(self) -> Seq<char> {
        match self {
            TokenKindView::Identifier(name) => "identifier '"@ + name + "'"@,
            TokenKindView::Keyword(Keyword::Return) => "return 'return'"@,
            TokenKindView::Type(Type::Int) => "int 'int'"@,
            TokenKindView::Type(Type::Void) => "void 'void'"@,
            TokenKindView::Separator(Separator::LParen) => "left parenthesis '('"@,
            TokenKindView::Separator(Separator::RParen) => "right parenthesis ')'"@,
            TokenKindView::Separator(Separator::LBrace) => "left brace '{'"@,
            TokenKindView::Separator(Separator::RBrace) => "right brace '}'"@,
            TokenKindView::Separator(Separator::Semi) => "semicolon ';'"@,
            TokenKindView::Operator(Operator::Plus) => "plus '+'"@,
            TokenKindView::Operator(Operator::Minus) => "minus '-'"@,
            TokenKindView::Operator(Operator::Star) => "star '*'"@,
            TokenKindView::Operator(Operator::Slash) => "slash '/'"@,
            TokenKindView::IntLit(value) => "numeric_constant '"@ + decimal(value as nat) + "'"@,
        }
    }
}

impl TokenKind {
    /// The kind as text for a listing of tokens.
    pub fn describe(&self) -> (r: String)
        ensures
            r@ == self@.text(),
    {
        match self {
            TokenKind::Identifier(name) => {
                let mut out = String::from_str("identifier '");
                out.append(name.as_str());
                out.append("'");
                out
            },
            TokenKind::Keyword(Keyword::Return) => String::from_str("return 'return'"),
            TokenKind::Type(Type::Int) => String::from_str("int 'int'"),
            TokenKind::Type(Type::Void) => String::from_str("void 'void'"),
            TokenKind::Separator(Separator::LParen) => String::from_str("left parenthesis '('"),
            TokenKind::Separator(Separator::RParen) => String::from_str("right parenthesis ')'"),
            TokenKind::Separator(Separator::LBrace) => String::from_str("left brace '{'"),
            TokenKind::Separator(Separator::RBrace) => String::from_str("right brace '}'"),
            TokenKind::Separator(Separator::Semi) => String::from_str("semicolon ';'"),
            TokenKind::Operator(Operator::Plus) => String::from_str("plus '+'"),
            TokenKind::Operator(Operator::Minus) => String::from_str("minus '-'"),
            TokenKind::Operator(Operator::Star) => String::from_str("star '*'"),
            TokenKind::Operator(Operator::Slash) => String::from_str("slash '/'"),
            TokenKind::IntLit(value) => {
                let mut out = String::from_str("numeric_constant '");
                push_decimal(&mut out, *value);
                out.append("'");
                out
            },
        }
    }

    /// Whether two kinds are the same: the same variant with the same
    /// content, identifiers compared character by character.
    pub fn same_as(&self, other: &TokenKind) -> (r: bool)
        ensures
            r == (self@ == other@),
    {
        match (self, other) {
            (TokenKind::Identifier(a), TokenKind::Identifier(b)) => *a == *b,
            (TokenKind::Keyword(a), TokenKind::Keyword(b)) => *a == *b,
            (TokenKind::Type(a), TokenKind::Type(b)) => *a == *b,
            (TokenKind::Separator(a), TokenKind::Separator(b)) => *a == *b,
            (TokenKind::Operator(a), TokenKind::Operator(b)) => *a == *b,
            (TokenKind::IntLit(a), TokenKind::IntLit(b)) => *a == *b,
            _ => false,
        }
    }
}

/// A token as a mathematical value.
pub struct TokenView {
    pub kind: TokenKindView,
    pub pos: PositionView,
}

/// A classified lexical unit and the place where it starts.
#[derive(Debug, PartialEq, Eq)]
pub struct Token {
    pub kind: TokenKind,
    pub pos: Position,
}

impl View for Token {
    type V = TokenView;

    open spec fn view(&self) -> TokenView {
        TokenView { kind: self.kind@, pos: self.pos@ }
    }
}

impl TokenView {
    /// The token as a line of a listing: its kind, then its place.
    pub open spec fn text(self) -> Seq<char> {
        self.kind.text() + "      Loc=<"@ + self.pos.text() + ">"@
    }
}

impl Token {
    /// The token as a line of a listing: its kind, then its place.
    pub fn describe(&self) -> (r: String)
        ensures
            r@ == self@.text(),
    {
        let mut out = self.kind.describe();
        out.append("      Loc=<");
        out.append(self.pos.describe().as_str());
        out.append(">");
        out
    }
}

impl Clone for Token {
    fn clone(&self) -> (r: Self)
        ensures
            r@ == self@,
    {
        Token { kind: self.kind.clone(), pos: self.pos.clone() }
    }
}

/// The views of a sequence of tokens, in order.
pub open spec fn token_views(tokens: Seq<Token>) -> Seq<TokenView> {
    tokens.map_values(|t: Token| t@)
}

} // verus!
