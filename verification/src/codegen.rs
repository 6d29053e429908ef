//! Code generation: the syntax tree to Rust source.

pub mod rust;
