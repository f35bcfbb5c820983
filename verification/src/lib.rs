//! A small compiler toolchain for the Solid language: a stack-based
//! intermediate representation with its textual format and interpreter,
//! the lexer and the parser of the language, the type system with struct
//! layout and templates, and the lowering of syntax trees into the
//! intermediate representation.

pub mod globals;
pub mod ir;
pub mod solidlang;
pub mod text;
