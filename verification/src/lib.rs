//! A compiler for a deliberately tiny C-like language: functions returning
//! `int` or `void`, zero-argument calls, `return` statements, integer literals
//! and binary arithmetic with parentheses.
//!
//! The stages run strictly in sequence: [`lexer`] turns characters into
//! tokens, [`parser`] turns tokens into a [`ast::Program`], [`analyzer`]
//! checks names and types, and [`codegen`] lowers the program to assembly
//! text; [`compiler`] runs them one after the other. Every stage is a
//! function of its input alone and carries a contract over a mathematical
//! model of that input.
//!
//! What each stage computes is defined apart from the code that computes
//! it: [`lexicon`] says which tokens a text stands for, [`grammar`] which
//! tree a sequence of tokens stands for, and [`typing`] when a tree is well
//! typed. [`printing`] ties the parser to the grammar of infix expressions.

pub mod analyzer;
pub mod ast;
pub mod codegen;
pub mod compiler;
pub mod grammar;
pub mod lexer;
pub mod lexicon;
pub mod parse_error;
pub mod parser;
pub mod printing;
pub mod symbol_table;
pub mod text;
pub mod token;
pub mod token_stream;
pub mod typing;
