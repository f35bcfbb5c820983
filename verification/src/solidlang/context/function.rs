//! The functions that a program can call.

use crate::globals::Symbol;
use crate::solidlang::context::ty::{Ty, TyView};
use vstd::prelude::*;

verus! {

/// A function after its signature was resolved: the path under which it
/// is called, the types of its parameters and of what it returns, and the
/// name of the function that it became in the intermediate representation.
pub struct Function {
    pub path: Vec<Symbol>,
    pub params: Vec<Ty>,
    pub return_type: Ty,
    pub ir_name: Symbol,
}

/// What a [`Function`] is, with sequences in place of vectors.
pub struct FunctionView {
    pub path: Seq<Symbol>,
    pub params: Seq<TyView>,
    pub return_type: TyView,
    pub ir_name: Symbol,
}

/// The views of a sequence of types.
pub open spec fn tys_view(tys: Seq<Ty>) -> Seq<TyView> {
    tys.map_values(|ty: Ty| ty@)
}

impl View for Function {
    type V = FunctionView;

    open spec fn view(&self) -> FunctionView {
        FunctionView {
            path: self.path@,
            params: tys_view(self.params@),
            return_type: self.return_type@,
            ir_name: self.ir_name,
        }
    }
}

/// A copy of the symbols.
pub fn copy_symbols(symbols: &Vec<Symbol>) -> (r: Vec<Symbol>)
    ensures
        r@ == symbols@,
{
    let mut r: Vec<Symbol> = Vec::new();
    let mut i: usize = 0;
    while i < symbols.len()
        invariant
            i <= symbols.len(),
            r@ == symbols@.take(i as int),
        decreases symbols.len() - i,
    {
        r.push(symbols[i]);
        i = i + 1;
        assert(symbols@.take(i as int) =~= symbols@.take(i - 1).push(symbols@[i - 1]));
    }
    assert(symbols@.take(symbols.len() as int) =~= symbols@);
    r
}

/// Whether the two paths consist of the same symbols.
pub fn same_path(a: &Vec<Symbol>, b: &Vec<Symbol>) -> (r: bool)
    ensures
        r == (a@ == b@),
{
    if a.len() != b.len() {
        return false;
    }
    let mut i: usize = 0;
    while i < a.len()
        invariant
            i <= a.len(),
            a.len() == b.len(),
            forall|j: int| 0 <= j < i ==> a@[j] == b@[j],
        decreases a.len() - i,
    {
        if a[i] != b[i] {
            return false;
        }
        i = i + 1;
    }
    assert(a@ =~= b@);
    true
}

/// A copy of the types.
pub fn copy_tys(tys: &Vec<Ty>) -> (r: Vec<Ty>)
    ensures
        tys_view(r@) == tys_view(tys@),
{
    let mut r: Vec<Ty> = Vec::new();
    let mut i: usize = 0;
    while i < tys.len()
        invariant
            i <= tys.len(),
            tys_view(r@) == tys_view(tys@.take(i as int)),
        decreases tys.len() - i,
    {
        let ty = tys[i].clone();
        proof {
            assert(tys@.take(i + 1) =~= tys@.take(i as int).push(tys@[i as int]));
            assert(tys_view(r@.push(ty)) =~= tys_view(r@).push(ty@));
            assert(tys_view(tys@.take(i as int).push(tys@[i as int])) =~= tys_view(
                tys@.take(i as int),
            ).push(tys@[i as int]@));
        }
        r.push(ty);
        i = i + 1;
    }
    assert(tys@.take(tys.len() as int) =~= tys@);
    r
}

impl Clone for Function {
    fn clone(&self) -> (r: Self)
        ensures
            r@ == self@,
    {
        Function {
            path: copy_symbols(&self.path),
            params: copy_tys(&self.params),
            return_type: self.return_type.clone(),
            ir_name: self.ir_name,
        }
    }
}

} // verus!
