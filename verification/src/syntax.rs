//! The syntax of the current Oneway grammar: the tokens the parser reads
//! and the tree it builds, which the code generator turns into Rust.

pub mod convert;
pub mod token;
pub mod tree;
