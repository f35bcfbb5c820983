//! Definitions as they are kept in the pools of a session.

use crate::globals::Symbol;
use crate::solidlang::ast::ASTStatementBlock;
use crate::solidlang::context::ty::Ty;
use vstd::prelude::*;

verus! {

pub struct StructDefField {
    pub name: Symbol,
    pub ty: Ty,
}

pub struct StructDef {
    pub fields: Vec<StructDefField>,
    pub generic_params: usize,
}

pub struct FunctionDef {
    pub params: Vec<(Symbol, Ty)>,
    pub generic_params: Vec<Symbol>,
    pub return_type: Ty,
    pub code: ASTStatementBlock,
}

} // verus!
