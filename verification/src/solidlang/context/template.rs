//! Templates: items with type parameters, kept until they are
//! instantiated.

use crate::globals::Symbol;
use crate::solidlang::ast::{ASTFunctionDef, ASTStructDef};
use crate::solidlang::context::function::copy_symbols;
use crate::solidlang::context::item::{SavedScopes, ScopeView};
use vstd::prelude::*;

verus! {

/// The item of a template.
#[derive(Clone, Copy)]
pub enum TemplateKind<'a> {
    Struct(&'a ASTStructDef),
    Function(&'a ASTFunctionDef),
}

/// An item with type parameters: the item, the scopes in which it was
/// declared, the names of its parameters, the outermost first, and the path
/// under which it is found.
pub struct Template<'a> {
    pub kind: TemplateKind<'a>,
    pub saved_scopes: SavedScopes<'a>,
    pub params: Vec<Symbol>,
    pub path: Vec<Symbol>,
}

/// What a [`Template`] is, with sequences in place of vectors.
pub struct TemplateView<'a> {
    pub kind: TemplateKind<'a>,
    pub saved_scopes: Seq<ScopeView<'a>>,
    pub params: Seq<Symbol>,
    pub path: Seq<Symbol>,
}

impl<'a> View for Template<'a> {
    type V = TemplateView<'a>;

    open spec fn view(&self) -> TemplateView<'a> {
        TemplateView {
            kind: self.kind,
            saved_scopes: self.saved_scopes@,
            params: self.params@,
            path: self.path@,
        }
    }
}

impl<'a> Clone for Template<'a> {
    fn clone(&self) -> (r: Self)
        ensures
            r@ == self@,
    {
        Template {
            kind: self.kind,
            saved_scopes: self.saved_scopes.clone(),
            params: copy_symbols(&self.params),
            path: copy_symbols(&self.path),
        }
    }
}

} // verus!
