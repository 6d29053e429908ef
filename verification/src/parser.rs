//! Parsing, and the syntax trees it works with.

pub mod ast;
pub mod grammar;
pub mod literals;
pub mod parser;
