//! The lowering of syntax trees into the intermediate representation.

pub mod codegen;
pub mod error;
pub mod laws;
pub mod model;

use crate::globals::{StringInterner, Symbol};
use crate::ir::interpreter::bytes::Endianness;
use crate::ir::{items_view, IRItem};
use crate::solidlang::ast::{
    ASTItem, ASTItemKind, ASTNameAndType, ASTStructDef, ASTType, ASTTypeKind,
};
use crate::solidlang::context::function::copy_symbols;
use crate::solidlang::context::item::{ItemContext, SavedScopes, ScopeView};
use crate::solidlang::context::layout::LayoutError;
use crate::solidlang::context::pool::{Pool, PoolRef};
use crate::solidlang::context::template::{Template, TemplateKind, TemplateView};
use crate::solidlang::context::ty::{pool_views, Ty, TyKind, TyStruct, TyStructField};
use crate::solidlang::lowerer::codegen::Codegen;
use crate::solidlang::lowerer::error::{
    CompileError, CompileErrorKind, ResolveError, TemplateError,
};
use crate::solidlang::lowerer::model::{
    add_template, process_items, process_template_items, process_templated_item,
    process_templated_items, process_type_items, register_structs, save_scopes, add_ty,
    ast_type_args_to_tys, ast_type_to_ty, fill_slot, find_instance, instantiate,
    instantiation_scopes, no_pending, relayout_all, relayout_one, resolve_unresolved,
    resolve_unresolved_generics, struct_def_to_ty, struct_fields, template_to_ty, InstanceView,
    LowererView, PendingView, UnresolvedGenericView, UnresolvedView,
};
use crate::solidlang::span::Span;
use vstd::prelude::*;

verus! {

/// A name of a type that stood for nothing when it was read.
pub struct Unresolved {
    pub path: Vec<Symbol>,
    pub slot: PoolRef<Ty>,
    pub span: Span,
}

impl View for Unresolved {
    type V = UnresolvedView;

    open spec fn view(&self) -> UnresolvedView {
        UnresolvedView { path: self.path@, slot: self.slot, span: self.span }
    }
}

/// A template with arguments that is still to be instantiated.
pub struct UnresolvedGeneric {
    pub path: Vec<Symbol>,
    pub args: Vec<PoolRef<Ty>>,
    pub slot: PoolRef<Ty>,
    pub span: Span,
}

impl View for UnresolvedGeneric {
    type V = UnresolvedGenericView;

    open spec fn view(&self) -> UnresolvedGenericView {
        UnresolvedGenericView {
            path: self.path@,
            args: self.args@,
            slot: self.slot,
            span: self.span,
        }
    }
}

/// The names that are pending, from the two lists in which they are kept.
pub open spec fn pending_view(unresolved: Seq<Unresolved>, generics: Seq<UnresolvedGeneric>)
    -> PendingView {
    PendingView {
        unresolved: unresolved.map_values(|u: Unresolved| u@),
        generics: generics.map_values(|g: UnresolvedGeneric| g@),
    }
}

/// A type that came out of a template for given arguments.
pub struct Instance<'a> {
    pub template: PoolRef<Template<'a>>,
    pub args: Vec<PoolRef<Ty>>,
    pub ty: PoolRef<Ty>,
}

impl<'a> View for Instance<'a> {
    type V = InstanceView<'a>;

    open spec fn view(&self) -> InstanceView<'a> {
        InstanceView { template: self.template, args: self.args@, ty: self.ty }
    }
}

/// Lowers the items of a program: it resolves the types, instantiates the
/// templates and turns the functions into functions of the intermediate
/// representation.
pub struct Lowerer<'a> {
    pub context: ItemContext<'a>,
    pub tys: Pool<Ty>,
    pub templates: Pool<Template<'a>>,
    pub instances: Vec<Instance<'a>>,
    pub codegen: Codegen<'a>,
    pub interner: StringInterner,
    pub items: Vec<IRItem>,
    pub counter: u64,
    pub endian: Endianness,
    pub max_depth: usize,
}

/// The nesting of templates that a lowerer made by [`Lowerer::new`]
/// follows.
pub const DEFAULT_MAX_DEPTH: usize = 64;

impl<'a> View for Lowerer<'a> {
    type V = LowererView<'a>;

    open spec fn view(&self) -> LowererView<'a> {
        LowererView {
            scopes: self.context@,
            tys: pool_views(self.tys@),
            templates: self.templates@.map_values(|template: Template<'a>| template@),
            instances: self.instances@.map_values(|instance: Instance<'a>| instance@),
            compiled: self.codegen@,
            names: self.interner.names(),
            count: self.interner.count(),
            items: items_view(self.items@),
            counter: self.counter as nat,
            endian: self.endian,
            max_depth: self.max_depth as nat,
        }
    }
}

/// Whether the two sequences of handles are the same.
pub fn same_refs(a: &Vec<PoolRef<Ty>>, b: &Vec<PoolRef<Ty>>) -> (r: bool)
    ensures
        r == (a@ == b@),
{
    if a.len() != b.len() {
        return false;
    }
    let mut i: usize = 0;
    while i < a.len()
        invariant
            i <= a.len(),
            a.len() == b.len(),
            forall|j: int| 0 <= j < i ==> a@[j] == b@[j],
        decreases a.len() - i,
    {
        if !a[i].same(&b[i]) {
            return false;
        }
        i = i + 1;
    }
    assert(a@ =~= b@);
    true
}

/// A copy of the handles.
pub fn copy_ty_refs(refs: &Vec<PoolRef<Ty>>) -> (r: Vec<PoolRef<Ty>>)
    ensures
        r@ == refs@,
{
    let mut r: Vec<PoolRef<Ty>> = Vec::new();
    let mut i: usize = 0;
    while i < refs.len()
        invariant
            i <= refs.len(),
            r@ == refs@.take(i as int),
        decreases refs.len() - i,
    {
        r.push(refs[i]);
        i = i + 1;
        assert(refs@.take(i as int) =~= refs@.take(i - 1).push(refs@[i - 1]));
    }
    assert(refs@.take(refs.len() as int) =~= refs@);
    r
}

impl<'a> Lowerer<'a> {
    /// The pools and the interner are in order.
    pub open spec fn wf(&self) -> bool {
        self.tys.wf() && self.templates.wf() && self.interner.wf()
    }

    /// A lowerer without scopes that makes constants in the byte order of
    /// the machine and interns names in `interner`.
    pub fn new(interner: StringInterner) -> (r: Self)
        requires
            interner.wf(),
        ensures
            r.wf(),
            r@.scopes.len() == 0,
            r@.tys.len() == 0,
            r@.templates.len() == 0,
            r@.instances.len() == 0,
            r@.compiled.len() == 0,
            r@.items.len() == 0,
            r@.counter == 0,
            r@.names == interner.names(),
            r@.count == interner.count(),
            r@.max_depth == DEFAULT_MAX_DEPTH,
    {
        Self::with(interner, Endianness::host(), DEFAULT_MAX_DEPTH)
    }

    /// A lowerer without scopes that makes constants in the given byte
    /// order and follows the nesting of templates `max_depth` levels deep.
    pub fn with(interner: StringInterner, endian: Endianness, max_depth: usize) -> (r: Self)
        requires
            interner.wf(),
        ensures
            r.wf(),
            r@.scopes.len() == 0,
            r@.tys.len() == 0,
            r@.templates.len() == 0,
            r@.instances.len() == 0,
            r@.compiled.len() == 0,
            r@.items.len() == 0,
            r@.counter == 0,
            r@.names == interner.names(),
            r@.count == interner.count(),
            r@.endian == endian,
            r@.max_depth == max_depth,
    {
        Self {
            context: ItemContext::new(),
            tys: Pool::new(),
            templates: Pool::new(),
            instances: Vec::new(),
            codegen: Codegen::new(),
            interner,
            items: Vec::new(),
            counter: 0,
            endian,
            max_depth,
        }
    }

    /// Adds a type to the pool.
    fn add_ty(&mut self, ty: Ty, span: Span) -> (r: Result<PoolRef<Ty>, CompileError>)
        requires
            old(self).wf(),
        ensures
            final(self).wf(),
            final(self)@.scopes == old(self)@.scopes,
            match r {
                Ok(pool_ref) => add_ty(old(self)@, ty@, span) == Ok::<
                    (PoolRef<Ty>, LowererView<'a>),
                    CompileError,
                >((pool_ref, final(self)@)),
                Err(e) => add_ty(old(self)@, ty@, span) == Err::<
                    (PoolRef<Ty>, LowererView<'a>),
                    CompileError,
                >(e),
            },
    {
        let ghost view = ty@;
        match self.tys.try_add(ty) {
            Some(pool_ref) => {
                proof {
                    assert(pool_views(self.tys@) =~= pool_views(old(self).tys@).push(view));
                }
                Ok(pool_ref)
            },
            None => Err(CompileError { kind: CompileErrorKind::LimitExceeded, span }),
        }
    }

    fn ast_type_to_ty(
        &mut self,
        ast_ty: &ASTType,
        unresolved: &mut Vec<Unresolved>,
        unresolved_with_generics: &mut Vec<UnresolvedGeneric>,
    ) -> (r: Result<PoolRef<Ty>, CompileError>)
        requires
            old(self).wf(),
        ensures
            final(self).wf(),
            final(self)@.scopes == old(self)@.scopes,
            match r {
                Ok(ty) => ast_type_to_ty(
                    old(self)@,
                    pending_view(old(unresolved)@, old(unresolved_with_generics)@),
                    *ast_ty,
                ) == Ok::<(PoolRef<Ty>, LowererView<'a>, PendingView), CompileError>(
                    (
                        ty,
                        final(self)@,
                        pending_view(final(unresolved)@, final(unresolved_with_generics)@),
                    ),
                ),
                Err(e) => ast_type_to_ty(
                    old(self)@,
                    pending_view(old(unresolved)@, old(unresolved_with_generics)@),
                    *ast_ty,
                ) == Err::<(PoolRef<Ty>, LowererView<'a>, PendingView), CompileError>(e),
            },
        decreases ast_ty,
    {
        let ghost start = self@;
        let ghost pending = pending_view(unresolved@, unresolved_with_generics@);
        match &ast_ty.kind {
            ASTTypeKind::Path { symbols, generic_args } => {
                if generic_args.len() > 0 {
                    let mut args: Vec<PoolRef<Ty>> = Vec::new();
                    let mut i: usize = 0;
                    while i < generic_args.len()
                        invariant
                            i <= generic_args.len(),
                            self.wf(),
                            start == old(self)@,
                            self@.scopes == start.scopes,
                            pending == pending_view(
                                old(unresolved)@,
                                old(unresolved_with_generics)@,
                            ),
                            ast_ty.kind == (ASTTypeKind::Path {
                                symbols: *symbols,
                                generic_args: *generic_args,
                            }),
                            ast_type_args_to_tys(start, pending, *ast_ty, i as nat) == Ok::<
                                (Seq<PoolRef<Ty>>, LowererView<'a>, PendingView),
                                CompileError,
                            >(
                                (
                                    args@,
                                    self@,
                                    pending_view(unresolved@, unresolved_with_generics@),
                                ),
                            ),
                        decreases generic_args.len() - i,
                    {
                        match self.ast_type_to_ty(
                            &generic_args[i],
                            unresolved,
                            unresolved_with_generics,
                        ) {
                            Err(e) => {
                                proof {
                                    assert(((i + 1) as nat - 1) as nat == i as nat);
                                    assert(ast_ty.kind->generic_args[i as int]
                                        == generic_args@[i as int]);
                                    assert(ast_type_args_to_tys(
                                        start,
                                        pending,
                                        *ast_ty,
                                        (i + 1) as nat,
                                    ) == Err::<
                                        (Seq<PoolRef<Ty>>, LowererView<'a>, PendingView),
                                        CompileError,
                                    >(e));
                                    lemma_type_args_error(
                                        start,
                                        pending,
                                        *ast_ty,
                                        (i + 1) as nat,
                                        generic_args.len() as nat,
                                    );
                                }
                                return Err(e);
                            },
                            Ok(ty) => {
                                args.push(ty);
                            },
                        }
                        i = i + 1;
                    }
                    let slot = match self.add_ty(Ty::placeholder_unknown(), ast_ty.span) {
                        Err(e) => {
                            return Err(e);
                        },
                        Ok(slot) => slot,
                    };
                    let generic = UnresolvedGeneric {
                        path: copy_symbols(symbols),
                        args,
                        slot,
                        span: ast_ty.span,
                    };
                    proof {
                        assert(pending_view(
                            unresolved@,
                            unresolved_with_generics@.push(generic),
                        ).generics =~= pending_view(
                            unresolved@,
                            unresolved_with_generics@,
                        ).generics.push(generic@));
                    }
                    unresolved_with_generics.push(generic);
                    Ok(slot)
                } else {
                    match self.context.resolve_ty(symbols) {
                        Some(ty) => Ok(ty),
                        None => {
                            let slot = match self.add_ty(Ty::placeholder_unknown(), ast_ty.span) {
                                Err(e) => {
                                    return Err(e);
                                },
                                Ok(slot) => slot,
                            };
                            let name = Unresolved {
                                path: copy_symbols(symbols),
                                slot,
                                span: ast_ty.span,
                            };
                            proof {
                                assert(pending_view(
                                    unresolved@.push(name),
                                    unresolved_with_generics@,
                                ).unresolved =~= pending_view(
                                    unresolved@,
                                    unresolved_with_generics@,
                                ).unresolved.push(name@));
                            }
                            unresolved.push(name);
                            Ok(slot)
                        },
                    }
                }
            },
            ASTTypeKind::PointerTo(pointee) => {
                let ty = match self.ast_type_to_ty(pointee, unresolved, unresolved_with_generics) {
                    Err(e) => {
                        return Err(e);
                    },
                    Ok(ty) => ty,
                };
                self.add_ty(Ty { kind: TyKind::PointerTo(ty) }, ast_ty.span)
            },
        }
    }

    fn struct_def_to_ty(
        &mut self,
        struct_def: &ASTStructDef,
        unresolved: &mut Vec<Unresolved>,
        unresolved_with_generics: &mut Vec<UnresolvedGeneric>,
    ) -> (r: Result<PoolRef<Ty>, CompileError>)
        requires
            old(self).wf(),
        ensures
            final(self).wf(),
            final(self)@.scopes == old(self)@.scopes,
            match r {
                Ok(ty) => struct_def_to_ty(
                    old(self)@,
                    pending_view(old(unresolved)@, old(unresolved_with_generics)@),
                    *struct_def,
                ) == Ok::<(PoolRef<Ty>, LowererView<'a>, PendingView), CompileError>(
                    (
                        ty,
                        final(self)@,
                        pending_view(final(unresolved)@, final(unresolved_with_generics)@),
                    ),
                ),
                Err(e) => struct_def_to_ty(
                    old(self)@,
                    pending_view(old(unresolved)@, old(unresolved_with_generics)@),
                    *struct_def,
                ) == Err::<(PoolRef<Ty>, LowererView<'a>, PendingView), CompileError>(e),
            },
    {
        let ghost start = self@;
        let ghost pending = pending_view(unresolved@, unresolved_with_generics@);
        let mut fields: Vec<TyStructField> = Vec::new();
        let mut i: usize = 0;
        while i < struct_def.fields.len()
            invariant
                i <= struct_def.fields.len(),
                self.wf(),
                start == old(self)@,
                self@.scopes == start.scopes,
                pending == pending_view(old(unresolved)@, old(unresolved_with_generics)@),
                struct_fields(start, pending, struct_def.fields@, i as nat) == Ok::<
                    (Seq<TyStructField>, LowererView<'a>, PendingView),
                    CompileError,
                >((fields@, self@, pending_view(unresolved@, unresolved_with_generics@))),
            decreases struct_def.fields.len() - i,
        {
            let field = &struct_def.fields[i];
            match self.ast_type_to_ty(&field.ast_type, unresolved, unresolved_with_generics) {
                Err(e) => {
                    proof {
                        assert(((i + 1) as nat - 1) as nat == i as nat);
                        assert(struct_fields(start, pending, struct_def.fields@, (i + 1) as nat)
                            == Err::<
                            (Seq<TyStructField>, LowererView<'a>, PendingView),
                            CompileError,
                        >(e));
                        lemma_struct_fields_error(
                            start,
                            pending,
                            struct_def.fields@,
                            (i + 1) as nat,
                            struct_def.fields.len() as nat,
                        );
                    }
                    return Err(e);
                },
                Ok(ty) => {
                    fields.push(TyStructField { offset: 0, name: field.name, ty });
                },
            }
            i = i + 1;
        }
        self.add_ty(
            Ty { kind: TyKind::Struct(TyStruct { fields, size: 0, align: 0 }) },
            struct_def.span,
        )
    }
}

proof fn lemma_type_args_error<'a>(
    st: LowererView<'a>,
    pending: PendingView,
    ast_ty: ASTType,
    i: nat,
    count: nat,
)
    requires
        i <= count,
        ast_ty.kind is Path,
        count <= ast_ty.kind->generic_args.len(),
        ast_type_args_to_tys(st, pending, ast_ty, i) is Err,
    ensures
        ast_type_args_to_tys(st, pending, ast_ty, count) == ast_type_args_to_tys(
            st,
            pending,
            ast_ty,
            i,
        ),
    decreases count - i,
{
    if i < count {
        lemma_type_args_error(st, pending, ast_ty, i + 1, count);
    }
}

proof fn lemma_struct_fields_error<'a>(
    st: LowererView<'a>,
    pending: PendingView,
    fields: Seq<ASTNameAndType>,
    i: nat,
    count: nat,
)
    requires
        i <= count <= fields.len(),
        struct_fields(st, pending, fields, i) is Err,
    ensures
        struct_fields(st, pending, fields, count) == struct_fields(st, pending, fields, i),
    decreases count - i,
{
    if i < count {
        lemma_struct_fields_error(st, pending, fields, i + 1, count);
    }
}

} // verus!

verus! {

impl<'a> Lowerer<'a> {
    /// The type that came out of the template for the arguments before.
    fn find_instance(&self, template: PoolRef<Template<'a>>, args: &Vec<PoolRef<Ty>>) -> (r:
        Option<PoolRef<Ty>>)
        ensures
            r == find_instance(self@.instances, template, args@),
    {
        let ghost all = self@.instances;
        let mut i: usize = self.instances.len();
        proof {
            assert(all.take(i as int) =~= all);
        }
        while i > 0
            invariant
                i <= self.instances.len(),
                all == self@.instances,
                find_instance(all, template, args@) == find_instance(
                    all.take(i as int),
                    template,
                    args@,
                ),
            decreases i,
        {
            i = i - 1;
            proof {
                assert(all.take(i + 1).last() == self.instances@[i as int]@);
                assert(all.take(i + 1).drop_last() =~= all.take(i as int));
            }
            let instance = &self.instances[i];
            if instance.template.same(&template) && same_refs(&instance.args, args) {
                return Some(instance.ty);
            }
        }
        None
    }

    /// Puts a copy of the type `from` in the place of the placeholder
    /// `slot`.
    fn fill_slot(&mut self, slot: PoolRef<Ty>, from: PoolRef<Ty>, span: Span) -> (r: Result<
        (),
        CompileError,
    >)
        requires
            old(self).wf(),
        ensures
            final(self).wf(),
            final(self)@.scopes == old(self)@.scopes,
            match r {
                Ok(()) => fill_slot(old(self)@, slot, from, span) == Ok::<
                    ((), LowererView<'a>),
                    CompileError,
                >(((), final(self)@)),
                Err(e) => fill_slot(old(self)@, slot, from, span) == Err::<
                    ((), LowererView<'a>),
                    CompileError,
                >(e),
            },
    {
        if slot.index >= self.tys.len() {
            return Err(
                CompileError { kind: CompileErrorKind::Layout(LayoutError::Unresolved), span },
            );
        }
        let ty = match self.tys.try_get(from) {
            Some(ty) => ty.clone(),
            None => {
                return Err(
                    CompileError { kind: CompileErrorKind::Layout(LayoutError::Unresolved), span },
                );
            },
        };
        let ghost view = ty@;
        self.tys.set(slot, ty);
        proof {
            assert(pool_views(self.tys@) =~= pool_views(old(self).tys@).update(
                slot.index as int,
                view,
            ));
        }
        Ok(())
    }

    /// The type that a template of a struct gives for the arguments.
    fn template_to_ty(
        &mut self,
        handle: PoolRef<Template<'a>>,
        template: Template<'a>,
        args: &Vec<PoolRef<Ty>>,
        depth: usize,
        span: Span,
    ) -> (r: Result<PoolRef<Ty>, CompileError>)
        requires
            old(self).wf(),
        ensures
            final(self).wf(),
            final(self)@.scopes == old(self)@.scopes,
            depth == 0 || args.len() != template.params.len() || template@.kind is Function
                ==> r is Err && final(self)@ == old(self)@,
            match r {
                Ok(ty) => template_to_ty(
                    old(self)@,
                    handle,
                    template@,
                    args@,
                    depth as nat,
                    span,
                ) == Ok::<(PoolRef<Ty>, LowererView<'a>), CompileError>((ty, final(self)@)),
                Err(e) => template_to_ty(
                    old(self)@,
                    handle,
                    template@,
                    args@,
                    depth as nat,
                    span,
                ) == Err::<(PoolRef<Ty>, LowererView<'a>), CompileError>(e),
            },
        decreases depth, 0nat, 0nat,
    {
        if depth == 0 {
            return Err(
                CompileError {
                    kind: CompileErrorKind::Template(TemplateError::DepthExceeded),
                    span,
                },
            );
        }
        if args.len() != template.params.len() {
            return Err(
                CompileError {
                    kind: CompileErrorKind::Template(TemplateError::ArityMismatch),
                    span,
                },
            );
        }
        let struct_def = match template.kind {
            TemplateKind::Struct(struct_def) => struct_def,
            TemplateKind::Function(_) => {
                return Err(
                    CompileError {
                        kind: CompileErrorKind::Resolve(ResolveError::UnknownTemplate),
                        span,
                    },
                );
            },
        };
        let ghost view = template@;
        let params = template.params;
        // Swap into the scopes of the template.
        let saved_scopes = self.context.swap_scopes(template.saved_scopes);
        self.context.start_scope();
        let mut i: usize = 0;
        proof {
            assert(Seq::new(0, |k: int| (seq![view.params[k]], args@[k])) =~= Seq::<
                (Seq<Symbol>, PoolRef<Ty>),
            >::empty());
        }
        while i < args.len()
            invariant
                i <= args.len(),
                args.len() == params.len(),
                params@ == view.params,
                self.wf(),
                self.tys == old(self).tys,
                self.templates == old(self).templates,
                self.instances == old(self).instances,
                self.codegen == old(self).codegen,
                self.interner == old(self).interner,
                self.items == old(self).items,
                self.counter == old(self).counter,
                self.endian == old(self).endian,
                self.max_depth == old(self).max_depth,
                self.context@ == view.saved_scopes.push(
                    ScopeView {
                        tys: Seq::new(i as nat, |k: int| (seq![view.params[k]], args@[k])),
                        ..crate::solidlang::context::item::empty_scope()
                    },
                ),
            decreases args.len() - i,
        {
            let mut path: Vec<Symbol> = Vec::new();
            path.push(params[i]);
            proof {
                assert(path@ =~= seq![view.params[i as int]]);
            }
            self.context.register_ty(&path, args[i]);
            i = i + 1;
            proof {
                let before = ScopeView {
                    tys: Seq::new((i - 1) as nat, |k: int| (seq![view.params[k]], args@[k])),
                    ..crate::solidlang::context::item::empty_scope()
                };
                let after = ScopeView {
                    tys: Seq::new(i as nat, |k: int| (seq![view.params[k]], args@[k])),
                    ..crate::solidlang::context::item::empty_scope()
                };
                assert(before.tys.push((path@, args@[i - 1])) =~= after.tys);
                assert(view.saved_scopes.push(before).drop_last() =~= view.saved_scopes);
                assert(self.context@ =~= view.saved_scopes.push(after));
            }
        }
        proof {
            assert(self.context@ == instantiation_scopes(view, args@));
            assert(self@ == (LowererView {
                scopes: instantiation_scopes(view, args@),
                ..old(self)@
            }));
        }
        let mut unresolved: Vec<Unresolved> = Vec::new();
        let mut unresolved_with_generics: Vec<UnresolvedGeneric> = Vec::new();
        proof {
            assert(pending_view(unresolved@, unresolved_with_generics@).unresolved
                =~= no_pending().unresolved);
            assert(pending_view(unresolved@, unresolved_with_generics@).generics
                =~= no_pending().generics);
        }
        let ty = match self.struct_def_to_ty(
            struct_def,
            &mut unresolved,
            &mut unresolved_with_generics,
        ) {
            Err(e) => {
                self.context.swap_scopes(saved_scopes);
                return Err(e);
            },
            Ok(ty) => ty,
        };
        if unresolved.len() > 0 {
            self.context.swap_scopes(saved_scopes);
            return Err(
                CompileError {
                    kind: CompileErrorKind::Resolve(ResolveError::UnknownType),
                    span: unresolved[0].span,
                },
            );
        }
        let instance = Instance { template: handle, args: copy_ty_refs(args), ty };
        proof {
            assert(self.instances@.push(instance).map_values(|i: Instance<'a>| i@)
                =~= self.instances@.map_values(|i: Instance<'a>| i@).push(instance@));
        }
        self.instances.push(instance);
        match self.resolve_unresolved_generics(&unresolved_with_generics, depth - 1) {
            Err(e) => {
                self.context.swap_scopes(saved_scopes);
                return Err(e);
            },
            Ok(()) => {},
        }
        // Swap back to the present scopes.
        self.context.swap_scopes(saved_scopes);
        Ok(ty)
    }

    /// The type that the template gives for the arguments: the one that it
    /// gave before for the same arguments, if there is one.
    fn instantiate(
        &mut self,
        template: PoolRef<Template<'a>>,
        args: &Vec<PoolRef<Ty>>,
        depth: usize,
        span: Span,
    ) -> (r: Result<PoolRef<Ty>, CompileError>)
        requires
            old(self).wf(),
        ensures
            final(self).wf(),
            final(self)@.scopes == old(self)@.scopes,
            match r {
                Ok(ty) => instantiate(old(self)@, template, args@, depth as nat, span) == Ok::<
                    (PoolRef<Ty>, LowererView<'a>),
                    CompileError,
                >((ty, final(self)@)),
                Err(e) => instantiate(old(self)@, template, args@, depth as nat, span) == Err::<
                    (PoolRef<Ty>, LowererView<'a>),
                    CompileError,
                >(e),
            },
        decreases depth, 1nat, 0nat,
    {
        match self.find_instance(template, args) {
            Some(ty) => {
                return Ok(ty);
            },
            None => {},
        }
        let found = match self.templates.try_get(template) {
            Some(found) => found.clone(),
            None => {
                return Err(
                    CompileError {
                        kind: CompileErrorKind::Resolve(ResolveError::UnknownTemplate),
                        span,
                    },
                );
            },
        };
        self.template_to_ty(template, found, args, depth, span)
    }

    /// Instantiates the templates with arguments that are pending and puts
    /// what they give in the place of their placeholders.
    fn resolve_unresolved_generics(
        &mut self,
        unresolved_generics: &Vec<UnresolvedGeneric>,
        depth: usize,
    ) -> (r: Result<(), CompileError>)
        requires
            old(self).wf(),
        ensures
            final(self).wf(),
            r is Ok ==> final(self)@.scopes == old(self)@.scopes,
            match r {
                Ok(()) => resolve_unresolved_generics(
                    old(self)@,
                    pending_view(Seq::empty(), unresolved_generics@).generics,
                    depth as nat,
                ) == Ok::<((), LowererView<'a>), CompileError>(((), final(self)@)),
                Err(e) => resolve_unresolved_generics(
                    old(self)@,
                    pending_view(Seq::empty(), unresolved_generics@).generics,
                    depth as nat,
                ) == Err::<((), LowererView<'a>), CompileError>(e),
            },
        decreases depth, 2nat, unresolved_generics.len(),
    {
        let ghost all = pending_view(Seq::empty(), unresolved_generics@).generics;
        let ghost start = self@;
        let mut i: usize = 0;
        while i < unresolved_generics.len()
            invariant
                i <= unresolved_generics.len(),
                self.wf(),
                start == old(self)@,
                self@.scopes == start.scopes,
                all == pending_view(Seq::empty(), unresolved_generics@).generics,
                resolve_unresolved_generics(start, all.take(i as int), depth as nat) == Ok::<
                    ((), LowererView<'a>),
                    CompileError,
                >(((), self@)),
            decreases unresolved_generics.len() - i,
        {
            let generic = &unresolved_generics[i];
            proof {
                assert(all.take(i + 1).drop_last() =~= all.take(i as int));
                assert(all.take(i + 1).last() == generic@);
            }
            let template = match self.context.resolve_template_ty(&generic.path) {
                Some(template) => template,
                None => {
                    proof {
                        lemma_generics_error(start, all, depth as nat, i + 1);
                    }
                    return Err(
                        CompileError {
                            kind: CompileErrorKind::Resolve(ResolveError::UnknownTemplate),
                            span: generic.span,
                        },
                    );
                },
            };
            let ty = match self.instantiate_step(template, generic, depth) {
                Err(e) => {
                    proof {
                        lemma_generics_error(start, all, depth as nat, i + 1);
                    }
                    return Err(e);
                },
                Ok(ty) => ty,
            };
            match self.fill_slot(generic.slot, ty, generic.span) {
                Err(e) => {
                    proof {
                        lemma_generics_error(start, all, depth as nat, i + 1);
                    }
                    return Err(e);
                },
                Ok(()) => {},
            }
            i = i + 1;
        }
        proof {
            assert(all.take(unresolved_generics.len() as int) =~= all);
        }
        Ok(())
    }

    /// Instantiates the template for one pending template with arguments.
    fn instantiate_step(
        &mut self,
        template: PoolRef<Template<'a>>,
        generic: &UnresolvedGeneric,
        depth: usize,
    ) -> (r: Result<PoolRef<Ty>, CompileError>)
        requires
            old(self).wf(),
        ensures
            final(self).wf(),
            final(self)@.scopes == old(self)@.scopes,
            match r {
                Ok(ty) => instantiate(
                    old(self)@,
                    template,
                    generic.args@,
                    depth as nat,
                    generic.span,
                ) == Ok::<(PoolRef<Ty>, LowererView<'a>), CompileError>((ty, final(self)@)),
                Err(e) => instantiate(
                    old(self)@,
                    template,
                    generic.args@,
                    depth as nat,
                    generic.span,
                ) == Err::<(PoolRef<Ty>, LowererView<'a>), CompileError>(e),
            },
        decreases depth, 1nat, 1nat,
    {
        self.instantiate(template, &generic.args, depth, generic.span)
    }
}

proof fn lemma_generics_error<'a>(
    st: LowererView<'a>,
    generics: Seq<UnresolvedGenericView>,
    depth: nat,
    i: int,
)
    requires
        0 <= i <= generics.len(),
        resolve_unresolved_generics(st, generics.take(i), depth) is Err,
    ensures
        resolve_unresolved_generics(st, generics, depth) == resolve_unresolved_generics(
            st,
            generics.take(i),
            depth,
        ),
    decreases generics.len() - i,
{
    if i < generics.len() {
        assert(generics.take(i + 1).drop_last() =~= generics.take(i));
        lemma_generics_error(st, generics, depth, i + 1);
    } else {
        assert(generics.take(i) =~= generics);
    }
}

} // verus!

verus! {

impl<'a> Lowerer<'a> {
    /// Adds a template to the pool.
    fn add_template(&mut self, template: Template<'a>, span: Span) -> (r: Result<
        PoolRef<Template<'a>>,
        CompileError,
    >)
        requires
            old(self).wf(),
        ensures
            final(self).wf(),
            final(self)@.scopes == old(self)@.scopes,
            match r {
                Ok(pool_ref) => add_template(old(self)@, template@, span) == Ok::<
                    (PoolRef<Template<'a>>, LowererView<'a>),
                    CompileError,
                >((pool_ref, final(self)@)),
                Err(e) => add_template(old(self)@, template@, span) == Err::<
                    (PoolRef<Template<'a>>, LowererView<'a>),
                    CompileError,
                >(e),
            },
    {
        let ghost view = template@;
        match self.templates.try_add(template) {
            Some(pool_ref) => {
                proof {
                    assert(self.templates@.map_values(|t: Template<'a>| t@) =~= old(
                        self,
                    ).templates@.map_values(|t: Template<'a>| t@).push(view));
                }
                Ok(pool_ref)
            },
            None => Err(CompileError { kind: CompileErrorKind::LimitExceeded, span }),
        }
    }

    /// Makes a template of an item that stands within templates with the
    /// parameters `existing_params`.
    fn process_templated_item(
        &mut self,
        existing_params: Vec<Symbol>,
        item: &'a ASTItem,
        created: &mut Vec<PoolRef<Template<'a>>>,
    ) -> (r: Result<(), CompileError>)
        requires
            old(self).wf(),
            old(self)@.scopes.len() > 0,
        ensures
            final(self).wf(),
            final(self)@.scopes.len() == old(self)@.scopes.len(),
            match r {
                Ok(()) => process_templated_item(
                    old(self)@,
                    existing_params@,
                    item,
                    old(created)@,
                ) == Ok::<(Seq<PoolRef<Template<'a>>>, LowererView<'a>), CompileError>(
                    (final(created)@, final(self)@),
                ),
                Err(e) => process_templated_item(
                    old(self)@,
                    existing_params@,
                    item,
                    old(created)@,
                ) == Err::<(Seq<PoolRef<Template<'a>>>, LowererView<'a>), CompileError>(e),
            },
        decreases item, 1nat, 0nat,
    {
        match &item.kind {
            ASTItemKind::FunctionDef(function_def) => {
                let mut path: Vec<Symbol> = Vec::new();
                path.push(function_def.name);
                assert(path@ =~= seq![function_def.name]);
                let template = Template {
                    kind: TemplateKind::Function(function_def),
                    params: existing_params,
                    path,
                    saved_scopes: SavedScopes::empty(),
                };
                let c = match self.add_template(template, function_def.span) {
                    Err(e) => {
                        return Err(e);
                    },
                    Ok(c) => c,
                };
                created.push(c);
                self.context.register_template(c);
                Ok(())
            },
            ASTItemKind::StructDef(struct_def) => {
                let mut path: Vec<Symbol> = Vec::new();
                path.push(struct_def.name);
                assert(path@ =~= seq![struct_def.name]);
                let template = Template {
                    kind: TemplateKind::Struct(struct_def),
                    params: existing_params,
                    path: copy_symbols(&path),
                    saved_scopes: SavedScopes::empty(),
                };
                let c = match self.add_template(template, struct_def.span) {
                    Err(e) => {
                        return Err(e);
                    },
                    Ok(c) => c,
                };
                created.push(c);
                self.context.register_template(c);
                self.context.register_path_for_template_ty(path, c);
                Ok(())
            },
            ASTItemKind::Template(template) => {
                let mut params = existing_params;
                let mut extra = copy_symbols(&template.params);
                params.append(&mut extra);
                self.process_templated_items(&params, item, created)
            },
        }
    }

    /// Makes templates of the items of the template `item`.
    fn process_templated_items(
        &mut self,
        params: &Vec<Symbol>,
        item: &'a ASTItem,
        created: &mut Vec<PoolRef<Template<'a>>>,
    ) -> (r: Result<(), CompileError>)
        requires
            old(self).wf(),
            old(self)@.scopes.len() > 0,
            item.kind is Template,
        ensures
            final(self).wf(),
            final(self)@.scopes.len() == old(self)@.scopes.len(),
            match r {
                Ok(()) => process_templated_items(
                    old(self)@,
                    params@,
                    item,
                    item.kind->Template_0.items.len() as nat,
                    old(created)@,
                ) == Ok::<(Seq<PoolRef<Template<'a>>>, LowererView<'a>), CompileError>(
                    (final(created)@, final(self)@),
                ),
                Err(e) => process_templated_items(
                    old(self)@,
                    params@,
                    item,
                    item.kind->Template_0.items.len() as nat,
                    old(created)@,
                ) == Err::<(Seq<PoolRef<Template<'a>>>, LowererView<'a>), CompileError>(e),
            },
        decreases item, 0nat, 0nat,
    {
        let ghost start = self@;
        let ghost before = created@;
        match &item.kind {
            ASTItemKind::Template(template) => {
                let mut i: usize = 0;
                while i < template.items.len()
                    invariant
                        i <= template.items.len(),
                        self.wf(),
                        start == old(self)@,
                        before == old(created)@,
                        self@.scopes.len() == start.scopes.len(),
                        start.scopes.len() > 0,
                        item.kind == ASTItemKind::Template(*template),
                        process_templated_items(start, params@, item, i as nat, before) == Ok::<
                            (Seq<PoolRef<Template<'a>>>, LowererView<'a>),
                            CompileError,
                        >((created@, self@)),
                    decreases template.items.len() - i,
                {
                    match self.process_templated_item(
                        copy_symbols(params),
                        &template.items[i],
                        created,
                    ) {
                        Err(e) => {
                            proof {
                                assert(((i + 1) as nat - 1) as nat == i as nat);
                                assert(process_templated_items(
                                    start,
                                    params@,
                                    item,
                                    (i + 1) as nat,
                                    before,
                                ) == Err::<
                                    (Seq<PoolRef<Template<'a>>>, LowererView<'a>),
                                    CompileError,
                                >(e));
                                lemma_templated_items_error(
                                    start,
                                    params@,
                                    item,
                                    (i + 1) as nat,
                                    template.items.len() as nat,
                                    before,
                                );
                            }
                            return Err(e);
                        },
                        Ok(()) => {},
                    }
                    i = i + 1;
                }
                Ok(())
            },
            _ => Ok(()),
        }
    }
}

proof fn lemma_templated_items_error<'a>(
    st: LowererView<'a>,
    params: Seq<Symbol>,
    item: &'a ASTItem,
    i: nat,
    count: nat,
    created: Seq<PoolRef<Template<'a>>>,
)
    requires
        i <= count,
        item.kind is Template,
        count <= item.kind->Template_0.items.len(),
        process_templated_items(st, params, item, i, created) is Err,
    ensures
        process_templated_items(st, params, item, count, created) == process_templated_items(
            st,
            params,
            item,
            i,
            created,
        ),
    decreases count - i,
{
    if i < count {
        lemma_templated_items_error(st, params, item, i + 1, count, created);
    }
}

} // verus!

verus! {

impl<'a> Lowerer<'a> {
    /// Makes the templates of the templates among the items.
    fn process_template_items(
        &mut self,
        items: &Vec<&'a ASTItem>,
        created: &mut Vec<PoolRef<Template<'a>>>,
    ) -> (r: Result<(), CompileError>)
        requires
            old(self).wf(),
            old(self)@.scopes.len() > 0,
        ensures
            final(self).wf(),
            final(self)@.scopes.len() == old(self)@.scopes.len(),
            match r {
                Ok(()) => process_template_items(
                    old(self)@,
                    items@,
                    items.len() as nat,
                    old(created)@,
                ) == Ok::<(Seq<PoolRef<Template<'a>>>, LowererView<'a>), CompileError>(
                    (final(created)@, final(self)@),
                ),
                Err(e) => process_template_items(
                    old(self)@,
                    items@,
                    items.len() as nat,
                    old(created)@,
                ) == Err::<(Seq<PoolRef<Template<'a>>>, LowererView<'a>), CompileError>(e),
            },
    {
        let ghost start = self@;
        let ghost before = created@;
        let mut i: usize = 0;
        while i < items.len()
            invariant
                i <= items.len(),
                self.wf(),
                start == old(self)@,
                before == old(created)@,
                self@.scopes.len() == start.scopes.len(),
                start.scopes.len() > 0,
                process_template_items(start, items@, i as nat, before) == Ok::<
                    (Seq<PoolRef<Template<'a>>>, LowererView<'a>),
                    CompileError,
                >((created@, self@)),
            decreases items.len() - i,
        {
            let item: &'a ASTItem = items[i];
            match &item.kind {
                ASTItemKind::Template(template) => {
                    match self.process_templated_items(
                        &copy_symbols(&template.params),
                        item,
                        created,
                    ) {
                        Err(e) => {
                            proof {
                                assert(((i + 1) as nat - 1) as nat == i as nat);
                                assert(process_template_items(
                                    start,
                                    items@,
                                    (i + 1) as nat,
                                    before,
                                ) == Err::<
                                    (Seq<PoolRef<Template<'a>>>, LowererView<'a>),
                                    CompileError,
                                >(e));
                                lemma_template_items_error(
                                    start,
                                    items@,
                                    (i + 1) as nat,
                                    items.len() as nat,
                                    before,
                                );
                            }
                            return Err(e);
                        },
                        Ok(()) => {},
                    }
                },
                _ => {},
            }
            i = i + 1;
        }
        Ok(())
    }

    /// Makes the types of the structs among the items and declares them.
    fn register_structs(
        &mut self,
        items: &Vec<&'a ASTItem>,
        unresolved: &mut Vec<Unresolved>,
        unresolved_with_generics: &mut Vec<UnresolvedGeneric>,
    ) -> (r: Result<(), CompileError>)
        requires
            old(self).wf(),
            old(self)@.scopes.len() > 0,
        ensures
            final(self).wf(),
            final(self)@.scopes.len() == old(self)@.scopes.len(),
            match r {
                Ok(()) => register_structs(
                    old(self)@,
                    pending_view(old(unresolved)@, old(unresolved_with_generics)@),
                    items@,
                    items.len() as nat,
                ) == Ok::<((), LowererView<'a>, PendingView), CompileError>(
                    (
                        (),
                        final(self)@,
                        pending_view(final(unresolved)@, final(unresolved_with_generics)@),
                    ),
                ),
                Err(e) => register_structs(
                    old(self)@,
                    pending_view(old(unresolved)@, old(unresolved_with_generics)@),
                    items@,
                    items.len() as nat,
                ) == Err::<((), LowererView<'a>, PendingView), CompileError>(e),
            },
    {
        let ghost start = self@;
        let ghost pending = pending_view(unresolved@, unresolved_with_generics@);
        let mut i: usize = 0;
        while i < items.len()
            invariant
                i <= items.len(),
                self.wf(),
                start == old(self)@,
                pending == pending_view(old(unresolved)@, old(unresolved_with_generics)@),
                self@.scopes.len() == start.scopes.len(),
                start.scopes.len() > 0,
                register_structs(start, pending, items@, i as nat) == Ok::<
                    ((), LowererView<'a>, PendingView),
                    CompileError,
                >(((), self@, pending_view(unresolved@, unresolved_with_generics@))),
            decreases items.len() - i,
        {
            let item: &'a ASTItem = items[i];
            match &item.kind {
                ASTItemKind::StructDef(struct_def) => {
                    let ty = match self.struct_def_to_ty(
                        struct_def,
                        unresolved,
                        unresolved_with_generics,
                    ) {
                        Err(e) => {
                            proof {
                                assert(((i + 1) as nat - 1) as nat == i as nat);
                                assert(register_structs(start, pending, items@, (i + 1) as nat)
                                    == Err::<((), LowererView<'a>, PendingView), CompileError>(
                                    e,
                                ));
                                lemma_register_structs_error(
                                    start,
                                    pending,
                                    items@,
                                    (i + 1) as nat,
                                    items.len() as nat,
                                );
                            }
                            return Err(e);
                        },
                        Ok(ty) => ty,
                    };
                    let mut path: Vec<Symbol> = Vec::new();
                    path.push(struct_def.name);
                    assert(path@ =~= seq![struct_def.name]);
                    self.context.register_ty(&path, ty);
                },
                _ => {},
            }
            i = i + 1;
        }
        Ok(())
    }

    /// Puts the types that the pending names stand for by now in the place
    /// of their placeholders.
    fn resolve_unresolved(&mut self, unresolved: &Vec<Unresolved>) -> (r: Result<
        (),
        CompileError,
    >)
        requires
            old(self).wf(),
        ensures
            final(self).wf(),
            final(self)@.scopes == old(self)@.scopes,
            match r {
                Ok(()) => resolve_unresolved(
                    old(self)@,
                    pending_view(unresolved@, Seq::empty()).unresolved,
                ) == Ok::<((), LowererView<'a>), CompileError>(((), final(self)@)),
                Err(e) => resolve_unresolved(
                    old(self)@,
                    pending_view(unresolved@, Seq::empty()).unresolved,
                ) == Err::<((), LowererView<'a>), CompileError>(e),
            },
    {
        let ghost all = pending_view(unresolved@, Seq::empty()).unresolved;
        let ghost start = self@;
        let mut i: usize = 0;
        while i < unresolved.len()
            invariant
                i <= unresolved.len(),
                self.wf(),
                start == old(self)@,
                self@.scopes == start.scopes,
                all == pending_view(unresolved@, Seq::empty()).unresolved,
                resolve_unresolved(start, all.take(i as int)) == Ok::<
                    ((), LowererView<'a>),
                    CompileError,
                >(((), self@)),
            decreases unresolved.len() - i,
        {
            let name = &unresolved[i];
            proof {
                assert(all.take(i + 1).drop_last() =~= all.take(i as int));
                assert(all.take(i + 1).last() == name@);
            }
            let result = match self.context.resolve_ty(&name.path) {
                Some(ty) => self.fill_slot(name.slot, ty, name.span),
                None => if self.context.resolve_template_ty(&name.path).is_some() {
                    Err(
                        CompileError {
                            kind: CompileErrorKind::Resolve(ResolveError::GenericArity),
                            span: name.span,
                        },
                    )
                } else {
                    Err(
                        CompileError {
                            kind: CompileErrorKind::Resolve(ResolveError::UnknownType),
                            span: name.span,
                        },
                    )
                },
            };
            match result {
                Err(e) => {
                    proof {
                        lemma_unresolved_error(start, all, i + 1);
                    }
                    return Err(e);
                },
                Ok(()) => {},
            }
            i = i + 1;
        }
        proof {
            assert(all.take(unresolved.len() as int) =~= all);
        }
        Ok(())
    }

    /// Gives the templates `created` the present scopes as the scopes in
    /// which they were declared.
    fn save_scopes(&mut self, created: &Vec<PoolRef<Template<'a>>>)
        requires
            old(self).wf(),
        ensures
            final(self).wf(),
            final(self)@ == save_scopes(old(self)@, created@, created.len() as nat),
            final(self)@.scopes == old(self)@.scopes,
    {
        let mut i: usize = 0;
        while i < created.len()
            invariant
                i <= created.len(),
                self.wf(),
                self@.scopes == old(self)@.scopes,
                self@ == save_scopes(old(self)@, created@, i as nat),
            decreases created.len() - i,
        {
            let template = created[i];
            if template.index < self.templates.len() {
                let ghost before = self@;
                let scopes = self.context.save_scopes();
                let slot = self.templates.get_mut(template);
                slot.saved_scopes = scopes;
                proof {
                    assert(self@.templates =~= before.templates.update(
                        template.index as int,
                        TemplateView {
                            saved_scopes: before.scopes,
                            ..before.templates[template.index as int]
                        },
                    ));
                }
            }
            i = i + 1;
        }
    }

    /// Computes the layout of the type `ty`.
    fn relayout_one(&mut self, ty: PoolRef<Ty>, span: Span) -> (r: Result<(), CompileError>)
        requires
            old(self).wf(),
        ensures
            final(self).wf(),
            final(self)@.scopes == old(self)@.scopes,
            r is Ok ==> ty.index < final(self)@.tys.len(),
            match r {
                Ok(()) => relayout_one(old(self)@, ty, span) == Ok::<
                    ((), LowererView<'a>),
                    CompileError,
                >(((), final(self)@)),
                Err(e) => relayout_one(old(self)@, ty, span) == Err::<
                    ((), LowererView<'a>),
                    CompileError,
                >(e),
            },
    {
        if ty.index >= self.tys.len() {
            return Err(
                CompileError { kind: CompileErrorKind::Layout(LayoutError::Unresolved), span },
            );
        }
        match Ty::struct_recompute_offsets_size_and_align_recursive(&mut self.tys, ty) {
            Ok(()) => Ok(()),
            Err(e) => Err(CompileError { kind: CompileErrorKind::Layout(e), span }),
        }
    }

    /// Computes the layouts of the given types.
    fn relayout_all(&mut self, tys: &Vec<PoolRef<Ty>>, span: Span) -> (r: Result<
        (),
        CompileError,
    >)
        requires
            old(self).wf(),
        ensures
            final(self).wf(),
            final(self)@.scopes == old(self)@.scopes,
            match r {
                Ok(()) => relayout_all(old(self)@, tys@, tys.len() as nat, span) == Ok::<
                    ((), LowererView<'a>),
                    CompileError,
                >(((), final(self)@)),
                Err(e) => relayout_all(old(self)@, tys@, tys.len() as nat, span) == Err::<
                    ((), LowererView<'a>),
                    CompileError,
                >(e),
            },
    {
        let ghost start = self@;
        let mut i: usize = 0;
        while i < tys.len()
            invariant
                i <= tys.len(),
                self.wf(),
                start == old(self)@,
                self@.scopes == start.scopes,
                relayout_all(start, tys@, i as nat, span) == Ok::<
                    ((), LowererView<'a>),
                    CompileError,
                >(((), self@)),
            decreases tys.len() - i,
        {
            match self.relayout_one(tys[i], span) {
                Err(e) => {
                    proof {
                        assert(((i + 1) as nat - 1) as nat == i as nat);
                        assert(relayout_all(start, tys@, (i + 1) as nat, span) == Err::<
                            ((), LowererView<'a>),
                            CompileError,
                        >(e));
                        lemma_relayout_all_error(
                            start,
                            tys@,
                            (i + 1) as nat,
                            tys.len() as nat,
                            span,
                        );
                    }
                    return Err(e);
                },
                Ok(()) => {},
            }
            i = i + 1;
        }
        Ok(())
    }

    /// Makes the types of the structs among the items.
    fn process_type_items(
        &mut self,
        items: &Vec<&'a ASTItem>,
        created_templates: &Vec<PoolRef<Template<'a>>>,
    ) -> (r: Result<(), CompileError>)
        requires
            old(self).wf(),
            old(self)@.scopes.len() > 0,
        ensures
            final(self).wf(),
            r is Ok ==> final(self)@.scopes.len() == old(self)@.scopes.len(),
            match r {
                Ok(()) => process_type_items(old(self)@, items@, created_templates@) == Ok::<
                    ((), LowererView<'a>),
                    CompileError,
                >(((), final(self)@)),
                Err(e) => process_type_items(old(self)@, items@, created_templates@) == Err::<
                    ((), LowererView<'a>),
                    CompileError,
                >(e),
            },
    {
        let mut resolve_later: Vec<Unresolved> = Vec::new();
        let mut resolve_later_generics: Vec<UnresolvedGeneric> = Vec::new();
        proof {
            assert(pending_view(resolve_later@, resolve_later_generics@).unresolved
                =~= no_pending().unresolved);
            assert(pending_view(resolve_later@, resolve_later_generics@).generics
                =~= no_pending().generics);
        }
        match self.register_structs(items, &mut resolve_later, &mut resolve_later_generics) {
            Err(e) => {
                return Err(e);
            },
            Ok(()) => {},
        }
        proof {
            assert(pending_view(resolve_later@, Seq::empty()).unresolved == pending_view(
                resolve_later@,
                resolve_later_generics@,
            ).unresolved);
            assert(pending_view(Seq::empty(), resolve_later_generics@).generics == pending_view(
                resolve_later@,
                resolve_later_generics@,
            ).generics);
        }
        match self.resolve_unresolved(&resolve_later) {
            Err(e) => {
                return Err(e);
            },
            Ok(()) => {},
        }
        // Giving the templates their scopes ...
        self.save_scopes(created_templates);
        // ... then resolving the templates with arguments.
        let depth = self.max_depth;
        match self.resolve_unresolved_generics(&resolve_later_generics, depth) {
            Err(e) => {
                return Err(e);
            },
            Ok(()) => {},
        }
        let tys = self.context.tys_iter();
        self.relayout_all(&tys, Span { start: 0, len: 0 })
    }

    /// Makes the templates and the types of the items in the innermost
    /// scope: the templates are noted with the scopes of this place, the
    /// structs become types with their layouts.
    pub fn process_items(&mut self, items: &Vec<&'a ASTItem>) -> (r: Result<(), CompileError>)
        requires
            old(self).wf(),
            old(self)@.scopes.len() > 0,
        ensures
            final(self).wf(),
            r is Ok ==> final(self)@.scopes.len() == old(self)@.scopes.len(),
            match r {
                Ok(()) => process_items(old(self)@, items@) == Ok::<
                    ((), LowererView<'a>),
                    CompileError,
                >(((), final(self)@)),
                Err(e) => process_items(old(self)@, items@) == Err::<
                    ((), LowererView<'a>),
                    CompileError,
                >(e),
            },
    {
        let mut created_templates: Vec<PoolRef<Template<'a>>> = Vec::new();
        match self.process_template_items(items, &mut created_templates) {
            Err(e) => {
                return Err(e);
            },
            Ok(()) => {},
        }
        self.process_type_items(items, &created_templates)
    }
}

proof fn lemma_template_items_error<'a>(
    st: LowererView<'a>,
    items: Seq<&'a ASTItem>,
    i: nat,
    count: nat,
    created: Seq<PoolRef<Template<'a>>>,
)
    requires
        i <= count <= items.len(),
        process_template_items(st, items, i, created) is Err,
    ensures
        process_template_items(st, items, count, created) == process_template_items(
            st,
            items,
            i,
            created,
        ),
    decreases count - i,
{
    if i < count {
        lemma_template_items_error(st, items, i + 1, count, created);
    }
}

proof fn lemma_register_structs_error<'a>(
    st: LowererView<'a>,
    pending: PendingView,
    items: Seq<&'a ASTItem>,
    i: nat,
    count: nat,
)
    requires
        i <= count <= items.len(),
        register_structs(st, pending, items, i) is Err,
    ensures
        register_structs(st, pending, items, count) == register_structs(st, pending, items, i),
    decreases count - i,
{
    if i < count {
        lemma_register_structs_error(st, pending, items, i + 1, count);
    }
}

proof fn lemma_unresolved_error<'a>(st: LowererView<'a>, unresolved: Seq<UnresolvedView>, i: int)
    requires
        0 <= i <= unresolved.len(),
        resolve_unresolved(st, unresolved.take(i)) is Err,
    ensures
        resolve_unresolved(st, unresolved) == resolve_unresolved(st, unresolved.take(i)),
    decreases unresolved.len() - i,
{
    if i < unresolved.len() {
        assert(unresolved.take(i + 1).drop_last() =~= unresolved.take(i));
        lemma_unresolved_error(st, unresolved, i + 1);
    } else {
        assert(unresolved.take(i) =~= unresolved);
    }
}

proof fn lemma_relayout_all_error<'a>(
    st: LowererView<'a>,
    tys: Seq<PoolRef<Ty>>,
    i: nat,
    count: nat,
    span: Span,
)
    requires
        i <= count <= tys.len(),
        relayout_all(st, tys, i, span) is Err,
    ensures
        relayout_all(st, tys, count, span) == relayout_all(st, tys, i, span),
    decreases count - i,
{
    if i < count {
        lemma_relayout_all_error(st, tys, i + 1, count, span);
    }
}

/// A copy of the types that came out of templates.
fn copy_instances<'a>(instances: &Vec<Instance<'a>>) -> (r: Vec<Instance<'a>>)
    ensures
        r@.map_values(|i: Instance<'a>| i@) == instances@.map_values(|i: Instance<'a>| i@),
{
    let mut r: Vec<Instance<'a>> = Vec::new();
    let mut i: usize = 0;
    while i < instances.len()
        invariant
            i <= instances.len(),
            r@.map_values(|i: Instance<'a>| i@) == instances@.take(i as int).map_values(
                |i: Instance<'a>| i@,
            ),
        decreases instances.len() - i,
    {
        let instance = Instance {
            template: instances[i].template,
            args: copy_ty_refs(&instances[i].args),
            ty: instances[i].ty,
        };
        proof {
            assert(instances@.take(i + 1) =~= instances@.take(i as int).push(
                instances@[i as int],
            ));
            assert(r@.push(instance).map_values(|i: Instance<'a>| i@) =~= r@.map_values(
                |i: Instance<'a>| i@,
            ).push(instance@));
            assert(instances@.take(i as int).push(instances@[i as int]).map_values(
                |i: Instance<'a>| i@,
            ) =~= instances@.take(i as int).map_values(|i: Instance<'a>| i@).push(
                instances@[i as int]@,
            ));
        }
        r.push(instance);
        i = i + 1;
    }
    assert(instances@.take(instances.len() as int) =~= instances@);
    r
}

/// A copy of the functions that came out of templates.
fn copy_compiled<'a>(codegen: &Codegen<'a>) -> (r: Codegen<'a>)
    ensures
        r@ == codegen@,
{
    let compiled = &codegen.compiled;
    let mut r: Vec<crate::solidlang::lowerer::codegen::Compiled<'a>> = Vec::new();
    let mut i: usize = 0;
    while i < compiled.len()
        invariant
            i <= compiled.len(),
            r@.map_values(|c: crate::solidlang::lowerer::codegen::Compiled<'a>| c@)
                == compiled@.take(i as int).map_values(
                |c: crate::solidlang::lowerer::codegen::Compiled<'a>| c@,
            ),
        decreases compiled.len() - i,
    {
        let entry = crate::solidlang::lowerer::codegen::Compiled {
            template: compiled[i].template,
            args: copy_ty_refs(&compiled[i].args),
            function: compiled[i].function.clone(),
        };
        proof {
            assert(compiled@.take(i + 1) =~= compiled@.take(i as int).push(compiled@[i as int]));
            assert(r@.push(entry).map_values(
                |c: crate::solidlang::lowerer::codegen::Compiled<'a>| c@,
            ) =~= r@.map_values(|c: crate::solidlang::lowerer::codegen::Compiled<'a>| c@).push(
                entry@,
            ));
            assert(compiled@.take(i as int).push(compiled@[i as int]).map_values(
                |c: crate::solidlang::lowerer::codegen::Compiled<'a>| c@,
            ) =~= compiled@.take(i as int).map_values(
                |c: crate::solidlang::lowerer::codegen::Compiled<'a>| c@,
            ).push(compiled@[i as int]@));
        }
        r.push(entry);
        i = i + 1;
    }
    assert(compiled@.take(compiled.len() as int) =~= compiled@);
    Codegen { compiled: r }
}

/// A copy of the templates.
fn copy_templates<'a>(templates: &Vec<Template<'a>>) -> (r: Vec<Template<'a>>)
    ensures
        r@.map_values(|t: Template<'a>| t@) == templates@.map_values(|t: Template<'a>| t@),
        r.len() == templates.len(),
{
    let mut r: Vec<Template<'a>> = Vec::new();
    let mut i: usize = 0;
    while i < templates.len()
        invariant
            i <= templates.len(),
            r.len() == i,
            r@.map_values(|t: Template<'a>| t@) == templates@.take(i as int).map_values(
                |t: Template<'a>| t@,
            ),
        decreases templates.len() - i,
    {
        let template = templates[i].clone();
        proof {
            assert(templates@.take(i + 1) =~= templates@.take(i as int).push(
                templates@[i as int],
            ));
            assert(r@.push(template).map_values(|t: Template<'a>| t@) =~= r@.map_values(
                |t: Template<'a>| t@,
            ).push(template@));
            assert(templates@.take(i as int).push(templates@[i as int]).map_values(
                |t: Template<'a>| t@,
            ) =~= templates@.take(i as int).map_values(|t: Template<'a>| t@).push(
                templates@[i as int]@,
            ));
        }
        r.push(template);
        i = i + 1;
    }
    assert(templates@.take(templates.len() as int) =~= templates@);
    r
}

impl<'a> Clone for Lowerer<'a> {
    fn clone(&self) -> (r: Self)
        ensures
            r@ == self@,
            r.wf() == self.wf(),
    {
        let tys = crate::solidlang::context::function::copy_tys(&self.tys.values);
        proof {
            assert(tys@.len() == crate::solidlang::context::function::tys_view(tys@).len());
            assert(self.tys.values@.len() == crate::solidlang::context::function::tys_view(
                self.tys.values@,
            ).len());
        }
        Lowerer {
            context: self.context.clone(),
            tys: Pool { values: tys, current_index: self.tys.current_index },
            templates: Pool {
                values: copy_templates(&self.templates.values),
                current_index: self.templates.current_index,
            },
            instances: copy_instances(&self.instances),
            codegen: copy_compiled(&self.codegen),
            interner: self.interner.clone(),
            items: crate::ir::copy_items(&self.items),
            counter: self.counter,
            endian: self.endian,
            max_depth: self.max_depth,
        }
    }
}

} // verus!
