//! The making of the computations of a function.

pub mod expression;
pub mod model;
pub mod steps;

use crate::globals::Symbol;
use crate::ir::comp::{comps_view, copy_comps, IRComp, IRCompView};
use crate::ir::copy_pairs;
use crate::solidlang::context::function::Function;
use crate::solidlang::context::pool::PoolRef;
use crate::solidlang::context::template::Template;
use crate::solidlang::context::ty::{Ty, TyView};
use crate::solidlang::lowerer::model::CompiledView;
use vstd::prelude::*;

verus! {

/// A function that came out of a template for given arguments.
pub struct Compiled<'a> {
    pub template: PoolRef<Template<'a>>,
    pub args: Vec<PoolRef<Ty>>,
    pub function: Function,
}

impl<'a> View for Compiled<'a> {
    type V = CompiledView<'a>;

    open spec fn view(&self) -> CompiledView<'a> {
        CompiledView { template: self.template, args: self.args@, function: self.function@ }
    }
}

/// The functions that came out of templates, each with the template and
/// the arguments for which it was made.
pub struct Codegen<'a> {
    pub compiled: Vec<Compiled<'a>>,
}

impl<'a> View for Codegen<'a> {
    type V = Seq<CompiledView<'a>>;

    open spec fn view(&self) -> Seq<CompiledView<'a>> {
        self.compiled@.map_values(|compiled: Compiled<'a>| compiled@)
    }
}

impl<'a> Codegen<'a> {
    pub fn new() -> (r: Self)
        ensures
            r@ == Seq::<CompiledView<'a>>::empty(),
    {
        let r = Self { compiled: Vec::new() };
        assert(r@ =~= Seq::<CompiledView<'a>>::empty());
        r
    }
}

/// What an expression gave: its type, and the name of the value of the
/// intermediate representation that holds it. A value of the type `void`
/// may have no name.
pub struct Value {
    pub id: Option<Symbol>,
    pub ty: Ty,
}

/// What a [`Value`] is.
pub struct ValueView {
    pub id: Option<Symbol>,
    pub ty: TyView,
}

impl View for Value {
    type V = ValueView;

    open spec fn view(&self) -> ValueView {
        ValueView { id: self.id, ty: self.ty@ }
    }
}

impl Clone for Value {
    fn clone(&self) -> (r: Self)
        ensures
            r@ == self@,
    {
        Value { id: self.id, ty: self.ty.clone() }
    }
}

impl Value {
    /// The value with the name `id` and the type `ty`.
    pub fn new_direct(id: Symbol, ty: Ty) -> (r: Self)
        ensures
            r@ == (ValueView { id: Some(id), ty: ty@ }),
    {
        Value { id: Some(id), ty }
    }

    /// The value of the type `void` that no computation made.
    pub fn new_none() -> (r: Self)
        ensures
            r@ == void_value(),
    {
        Value { id: None, ty: Ty::from_primitive(crate::solidlang::context::ty::TyPrimitive::Void) }
    }
}

/// The value of the type `void` that no computation made.
pub open spec fn void_value() -> ValueView {
    ValueView {
        id: None,
        ty: TyView::Primitive(crate::solidlang::context::ty::TyPrimitive::Void),
    }
}

/// What lowering an expression or a statement gave.
pub enum CompilationResult {
    /// A value, with which the lowering goes on.
    Value(Value),
    /// Nothing: the function returns before the value would be used.
    Returning,
}

/// What a [`CompilationResult`] is.
pub enum ResultView {
    Value(ValueView),
    Returning,
}

impl View for CompilationResult {
    type V = ResultView;

    open spec fn view(&self) -> ResultView {
        match self {
            CompilationResult::Value(value) => ResultView::Value(value@),
            CompilationResult::Returning => ResultView::Returning,
        }
    }
}

/// The state of the lowering of one function: the scopes of the local
/// names, the innermost last; the computations and labels that were made;
/// the number of names that were made for them; the type that the function
/// returns; and for each loop around the place that is being lowered, the
/// outermost first, the labels to which `continue` and `break` jump.
pub struct CodegenContext {
    pub scopes: Vec<Vec<(Symbol, Value)>>,
    pub comps: Vec<IRComp>,
    pub label_defs: Vec<(Symbol, u64)>,
    pub counter: u64,
    pub return_type: Ty,
    pub loops: Vec<(Symbol, Symbol)>,
}

/// What a [`CodegenContext`] is, with sequences in place of vectors.
pub struct CodegenView {
    pub scopes: Seq<Seq<(Symbol, ValueView)>>,
    pub comps: Seq<IRCompView>,
    pub label_defs: Seq<(Symbol, u64)>,
    pub counter: nat,
    pub return_type: TyView,
    pub loops: Seq<(Symbol, Symbol)>,
}

/// The views of the names of a scope.
pub open spec fn bindings_view(bindings: Seq<(Symbol, Value)>) -> Seq<(Symbol, ValueView)> {
    bindings.map_values(|binding: (Symbol, Value)| (binding.0, binding.1@))
}

/// The views of scopes of names.
pub open spec fn name_scopes_view(scopes: Seq<Vec<(Symbol, Value)>>) -> Seq<
    Seq<(Symbol, ValueView)>,
> {
    scopes.map_values(|scope: Vec<(Symbol, Value)>| bindings_view(scope@))
}

impl View for CodegenContext {
    type V = CodegenView;

    open spec fn view(&self) -> CodegenView {
        CodegenView {
            scopes: name_scopes_view(self.scopes@),
            comps: comps_view(self.comps@),
            label_defs: self.label_defs@,
            counter: self.counter as nat,
            return_type: self.return_type@,
            loops: self.loops@,
        }
    }
}

/// A copy of the names of a scope.
fn copy_bindings(bindings: &Vec<(Symbol, Value)>) -> (r: Vec<(Symbol, Value)>)
    ensures
        bindings_view(r@) == bindings_view(bindings@),
{
    let mut r: Vec<(Symbol, Value)> = Vec::new();
    let mut i: usize = 0;
    while i < bindings.len()
        invariant
            i <= bindings.len(),
            bindings_view(r@) == bindings_view(bindings@.take(i as int)),
        decreases bindings.len() - i,
    {
        let binding = (bindings[i].0, bindings[i].1.clone());
        proof {
            assert(bindings@.take(i + 1) =~= bindings@.take(i as int).push(bindings@[i as int]));
            assert(bindings_view(r@.push(binding)) =~= bindings_view(r@).push(
                (binding.0, binding.1@),
            ));
            assert(bindings_view(bindings@.take(i as int).push(bindings@[i as int]))
                =~= bindings_view(bindings@.take(i as int)).push(
                (bindings@[i as int].0, bindings@[i as int].1@),
            ));
        }
        r.push(binding);
        i = i + 1;
    }
    assert(bindings@.take(bindings.len() as int) =~= bindings@);
    r
}

impl Clone for CodegenContext {
    fn clone(&self) -> (r: Self)
        ensures
            r@ == self@,
    {
        let mut scopes: Vec<Vec<(Symbol, Value)>> = Vec::new();
        let mut i: usize = 0;
        while i < self.scopes.len()
            invariant
                i <= self.scopes.len(),
                name_scopes_view(scopes@) == name_scopes_view(self.scopes@.take(i as int)),
            decreases self.scopes.len() - i,
        {
            let scope = copy_bindings(&self.scopes[i]);
            proof {
                assert(self.scopes@.take(i + 1) =~= self.scopes@.take(i as int).push(
                    self.scopes@[i as int],
                ));
                assert(name_scopes_view(scopes@.push(scope)) =~= name_scopes_view(scopes@).push(
                    bindings_view(scope@),
                ));
                assert(name_scopes_view(self.scopes@.take(i as int).push(self.scopes@[i as int]))
                    =~= name_scopes_view(self.scopes@.take(i as int)).push(
                    bindings_view(self.scopes@[i as int]@),
                ));
            }
            scopes.push(scope);
            i = i + 1;
        }
        assert(self.scopes@.take(self.scopes.len() as int) =~= self.scopes@);
        CodegenContext {
            scopes,
            comps: copy_comps(&self.comps),
            label_defs: copy_pairs(&self.label_defs),
            counter: self.counter,
            return_type: self.return_type.clone(),
            loops: copy_pairs(&self.loops),
        }
    }
}

/// What the last binding of `name` among `bindings` binds.
pub open spec fn lookup_name(bindings: Seq<(Symbol, ValueView)>, name: Symbol) -> Option<ValueView>
    decreases bindings.len(),
{
    if bindings.len() == 0 {
        None
    } else if bindings.last().0 == name {
        Some(bindings.last().1)
    } else {
        lookup_name(bindings.drop_last(), name)
    }
}

/// The value that `name` stands for: the one that the innermost scope with
/// a binding of `name` binds last.
pub open spec fn resolve_name(scopes: Seq<Seq<(Symbol, ValueView)>>, name: Symbol) -> Option<
    ValueView,
>
    decreases scopes.len(),
{
    if scopes.len() == 0 {
        None
    } else {
        match lookup_name(scopes.last(), name) {
            Some(value) => Some(value),
            None => resolve_name(scopes.drop_last(), name),
        }
    }
}

impl CodegenContext {
    /// The state in which the lowering of a function that returns
    /// `return_type` begins.
    pub fn new(return_type: Ty) -> (r: Self)
        ensures
            r@ == (CodegenView {
                scopes: seq![Seq::empty()],
                comps: Seq::empty(),
                label_defs: Seq::empty(),
                counter: 0,
                return_type: return_type@,
                loops: Seq::empty(),
            }),
    {
        let mut scopes: Vec<Vec<(Symbol, Value)>> = Vec::new();
        scopes.push(Vec::new());
        let r = CodegenContext {
            scopes,
            comps: Vec::new(),
            label_defs: Vec::new(),
            counter: 0,
            return_type,
            loops: Vec::new(),
        };
        proof {
            assert(r@.scopes[0] =~= Seq::empty());
            assert(r@.scopes =~= seq![Seq::empty()]);
            assert(r@.comps =~= Seq::empty());
        }
        r
    }

    /// The value that `name` stands for.
    #[verifier::loop_isolation(false)]
    pub fn resolve_name(&self, name: Symbol) -> (r: Option<Value>)
        ensures
            match r {
                Some(value) => resolve_name(self@.scopes, name) == Some(value@),
                None => resolve_name(self@.scopes, name) is None,
            },
    {
        let ghost all = self@.scopes;
        let mut i: usize = self.scopes.len();
        proof {
            assert(all.take(i as int) =~= all);
        }
        while i > 0
            invariant
                i <= self.scopes.len(),
                all == self@.scopes,
                resolve_name(all, name) == resolve_name(all.take(i as int), name),
            decreases i,
        {
            i = i - 1;
            let scope = &self.scopes[i];
            let ghost bindings = bindings_view(scope@);
            proof {
                assert(all.take(i + 1).last() == bindings);
                assert(all.take(i + 1).drop_last() =~= all.take(i as int));
                assert(bindings.take(scope.len() as int) =~= bindings);
            }
            let mut k: usize = scope.len();
            while k > 0
                invariant
                    k <= scope.len(),
                    bindings == bindings_view(scope@),
                    lookup_name(bindings, name) == lookup_name(bindings.take(k as int), name),
                decreases k,
            {
                k = k - 1;
                proof {
                    assert(bindings.take(k + 1).last() == bindings[k as int]);
                    assert(bindings.take(k + 1).drop_last() =~= bindings.take(k as int));
                }
                if scope[k].0 == name {
                    return Some(scope[k].1.clone());
                }
            }
        }
        None
    }

    /// Adds a computation.
    pub fn add_computation(&mut self, comp: IRComp)
        ensures
            final(self)@ == (CodegenView { comps: old(self)@.comps.push(comp@), ..old(self)@ }),
    {
        proof {
            assert(comps_view(self.comps@.push(comp)) =~= comps_view(self.comps@).push(comp@));
        }
        self.comps.push(comp);
    }

    /// Lets `label` stand for the computation that is added next.
    pub fn place_label(&mut self, label: Symbol)
        ensures
            final(self)@ == (CodegenView {
                label_defs: old(self)@.label_defs.push((label, old(self)@.comps.len() as u64)),
                ..old(self)@
            }),
    {
        self.label_defs.push((label, self.comps.len() as u64));
    }

    /// Binds `name` to `value` in the innermost scope.
    pub fn bind(&mut self, name: Symbol, value: Value)
        requires
            old(self)@.scopes.len() > 0,
        ensures
            final(self)@ == (CodegenView {
                scopes: old(self)@.scopes.drop_last().push(
                    old(self)@.scopes.last().push((name, value@)),
                ),
                ..old(self)@
            }),
    {
        let mut scope = self.scopes.pop().unwrap();
        let ghost rest = self.scopes@;
        let ghost before = bindings_view(scope@);
        proof {
            assert(bindings_view(scope@.push((name, value))) =~= before.push((name, value@)));
            assert(name_scopes_view(rest) =~= old(self)@.scopes.drop_last());
        }
        scope.push((name, value));
        proof {
            assert(name_scopes_view(rest.push(scope)) =~= name_scopes_view(rest).push(
                bindings_view(scope@),
            ));
        }
        self.scopes.push(scope);
    }

    /// Begins a scope of names within the innermost one.
    pub fn start_scope(&mut self)
        ensures
            final(self)@ == (CodegenView {
                scopes: old(self)@.scopes.push(Seq::empty()),
                ..old(self)@
            }),
    {
        let scope: Vec<(Symbol, Value)> = Vec::new();
        proof {
            assert(bindings_view(scope@) =~= Seq::empty());
            assert(name_scopes_view(self.scopes@.push(scope)) =~= name_scopes_view(
                self.scopes@,
            ).push(bindings_view(scope@)));
        }
        self.scopes.push(scope);
    }

    /// Ends the innermost scope of names.
    pub fn close_scope(&mut self)
        ensures
            final(self)@ == (CodegenView {
                scopes: if old(self)@.scopes.len() > 0 {
                    old(self)@.scopes.drop_last()
                } else {
                    old(self)@.scopes
                },
                ..old(self)@
            }),
    {
        self.scopes.pop();
        proof {
            if old(self)@.scopes.len() > 0 {
                assert(name_scopes_view(self.scopes@) =~= old(self)@.scopes.drop_last());
            }
        }
    }
}

} // verus!
