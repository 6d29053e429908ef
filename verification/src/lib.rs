//! Oneway: the lexer, parser, checker and Rust code generator of the
//! Oneway language, with the logic of its command-line tools and
//! language server.


pub mod ast;
pub mod checker;
pub mod codegen;
pub mod cli;
pub mod error;
pub mod front;
pub mod lexer;
pub mod lints;
pub mod loader;
pub mod lsp;
pub mod parser;
pub mod syntax;
pub mod text;
