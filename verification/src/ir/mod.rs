//! The intermediate representation: sized types, named values, functions
//! made of computations and labels, and modules of functions.

pub mod assembly;
pub mod comp;
pub mod interpreter;

use crate::globals::Symbol;
use crate::ir::comp::{comps_view, copy_comps, IRComp, IRCompView};
use vstd::prelude::*;

verus! {

/// The storage that a value needs.
#[derive(Debug, Clone, Copy, PartialEq, Eq, Structural)]
pub struct IRType {
    pub size: u64,
    pub align: u64,
}

/// A reference to a value of the enclosing function, by its name.
#[derive(Debug, Clone, Copy, PartialEq, Eq, Structural)]
pub struct IRValue {
    pub id: Symbol,
}

#[derive(Debug)]
pub struct IRItemFunctionDef {
    pub name: Symbol,
    pub return_type: IRType,
    /// The parameters, each with the name under which the computations
    /// refer to it.
    pub params: Vec<(Option<Symbol>, IRType)>,
    pub comps: Vec<IRComp>,
    /// The labels in the order of their definition, each with the index of
    /// the computation that runs next after a jump to it. Of two definitions
    /// of one label the later one counts.
    pub label_defs: Vec<(Symbol, u64)>,
}

#[derive(Debug)]
pub enum IRItemKind {
    FunctionDef(IRItemFunctionDef),
}

#[derive(Debug)]
pub struct IRItem {
    pub kind: IRItemKind,
}

#[derive(Debug)]
pub struct IRModule {
    pub items: Vec<IRItem>,
}

/// What an [`IRItemFunctionDef`] is, with sequences in place of vectors.
pub struct IRFunctionView {
    pub name: Symbol,
    pub return_type: IRType,
    pub params: Seq<(Option<Symbol>, IRType)>,
    pub comps: Seq<IRCompView>,
    pub label_defs: Seq<(Symbol, u64)>,
}

impl View for IRItemFunctionDef {
    type V = IRFunctionView;

    open spec fn view(&self) -> IRFunctionView {
        IRFunctionView {
            name: self.name,
            return_type: self.return_type,
            params: self.params@,
            comps: comps_view(self.comps@),
            label_defs: self.label_defs@,
        }
    }
}

impl View for IRItem {
    type V = IRFunctionView;

    open spec fn view(&self) -> IRFunctionView {
        match self.kind {
            IRItemKind::FunctionDef(function_def) => function_def@,
        }
    }
}

/// The views of a sequence of items.
pub open spec fn items_view(items: Seq<IRItem>) -> Seq<IRFunctionView> {
    items.map_values(|item: IRItem| item@)
}

impl View for IRModule {
    type V = Seq<IRFunctionView>;

    open spec fn view(&self) -> Seq<IRFunctionView> {
        items_view(self.items@)
    }
}

impl IRFunctionView {
    /// The names of the function's values: those of the parameters, then
    /// those of the computations.
    pub open spec fn value_names(self) -> Seq<Option<Symbol>> {
        self.params.map_values(|param: (Option<Symbol>, IRType)| param.0) + self.comps.map_values(
            |comp: IRCompView| comp.id,
        )
    }
}

/// The index of the first entry of `names` that is `name`.
pub open spec fn find_name(names: Seq<Option<Symbol>>, name: Symbol) -> Option<int>
    decreases names.len(),
{
    if names.len() == 0 {
        None
    } else if names[0] == Some(name) {
        Some(0)
    } else {
        match find_name(names.drop_first(), name) {
            Some(i) => Some(i + 1),
            None => None,
        }
    }
}

/// The target of `label` among the definitions `defs`: that of its last
/// definition.
pub open spec fn find_label(defs: Seq<(Symbol, u64)>, label: Symbol) -> Option<u64>
    decreases defs.len(),
{
    if defs.len() == 0 {
        None
    } else if defs.last().0 == label {
        Some(defs.last().1)
    } else {
        find_label(defs.drop_last(), label)
    }
}

/// A copy of pairs of plain values.
pub fn copy_pairs<A: Copy, B: Copy>(pairs: &Vec<(A, B)>) -> (r: Vec<(A, B)>)
    ensures
        r@ == pairs@,
{
    let mut r: Vec<(A, B)> = Vec::new();
    let mut i: usize = 0;
    while i < pairs.len()
        invariant
            i <= pairs.len(),
            r@ == pairs@.take(i as int),
        decreases pairs.len() - i,
    {
        r.push((pairs[i].0, pairs[i].1));
        i = i + 1;
        assert(pairs@.take(i as int) =~= pairs@.take(i - 1).push(pairs@[i - 1]));
    }
    assert(pairs@.take(pairs.len() as int) =~= pairs@);
    r
}

impl Clone for IRItemFunctionDef {
    fn clone(&self) -> (r: Self)
        ensures
            r@ == self@,
    {
        IRItemFunctionDef {
            name: self.name,
            return_type: self.return_type,
            params: copy_pairs(&self.params),
            comps: copy_comps(&self.comps),
            label_defs: copy_pairs(&self.label_defs),
        }
    }
}

impl Clone for IRItem {
    fn clone(&self) -> (r: Self)
        ensures
            r@ == self@,
    {
        match &self.kind {
            IRItemKind::FunctionDef(function_def) => IRItem {
                kind: IRItemKind::FunctionDef(function_def.clone()),
            },
        }
    }
}

/// A copy of the items.
pub fn copy_items(items: &Vec<IRItem>) -> (r: Vec<IRItem>)
    ensures
        items_view(r@) == items_view(items@),
{
    let mut r: Vec<IRItem> = Vec::new();
    let mut i: usize = 0;
    while i < items.len()
        invariant
            i <= items.len(),
            items_view(r@) == items_view(items@.take(i as int)),
        decreases items.len() - i,
    {
        let item = items[i].clone();
        proof {
            assert(items@.take(i + 1) =~= items@.take(i as int).push(items@[i as int]));
            assert(items_view(r@.push(item)) =~= items_view(r@).push(item@));
            assert(items_view(items@.take(i as int).push(items@[i as int])) =~= items_view(
                items@.take(i as int),
            ).push(items@[i as int]@));
        }
        r.push(item);
        i = i + 1;
    }
    assert(items@.take(items.len() as int) =~= items@);
    r
}

impl Clone for IRModule {
    fn clone(&self) -> (r: Self)
        ensures
            r@ == self@,
    {
        IRModule { items: copy_items(&self.items) }
    }
}

} // verus!
