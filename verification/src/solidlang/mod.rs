//! The Solid language: its tokens and syntax trees, its parser, its types
//! and the lowering into the intermediate representation.

pub mod ast;
pub mod context;
pub mod defs;
pub mod lexer;
pub mod lowerer;
pub mod parser;
pub mod span;
pub mod tree;
