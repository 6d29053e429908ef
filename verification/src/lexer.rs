//! The lexer: source text to tokens.

pub mod token;

pub use token::{Token, TokenKind};
pub mod scanner;
