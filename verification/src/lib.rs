//! A tokenizer and a recursive-descent parser for the source files of
//! scanner generators (pattern and action pairs) and of parser generators
//! (token declarations and productions with alternatives).
//!
//! Every function is stated over mathematical models: a text is a
//! `Seq<char>`, a token is a `TokenView`, a syntax tree is a `SyntaxTree`.

pub mod ast;
pub mod lexer;
pub mod lexer_proofs;
pub mod parser;
pub mod parser_proofs;
pub mod syntax;
pub mod text;
pub mod token;

pub use ast::{ASTNode, SyntaxTree};
pub use lexer::{lexer, scan_code};
pub use parser::{parse, parse_bison, parse_flex, Parser};
pub use token::{Token, TokenType, TokenView};
