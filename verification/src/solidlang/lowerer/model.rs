//! What the lowering does to the types of a program, as functions on the
//! state of the lowerer.

use crate::globals::Symbol;
use crate::ir::interpreter::bytes::Endianness;
use crate::ir::IRFunctionView;
use crate::solidlang::ast::{
    ASTItem, ASTItemKind, ASTNameAndType, ASTStructDef, ASTType, ASTTypeKind,
};
use crate::solidlang::context::item::{
    declared_tys, empty_scope, resolve_template_ty, resolve_ty, with_last, ScopeView,
};
use crate::solidlang::context::function::FunctionView;
use crate::solidlang::context::layout::LayoutError;
use crate::solidlang::context::pool::PoolRef;
use crate::solidlang::context::template::{Template, TemplateKind, TemplateView};
use crate::solidlang::context::ty::{relayout, Ty, TyStructField, TyView};
use crate::solidlang::lowerer::error::{
    CompileError, CompileErrorKind, ResolveError, TemplateError,
};
use crate::solidlang::span::Span;
use std::marker::PhantomData;
use vstd::prelude::*;

verus! {

/// A type that came out of a template for given arguments.
pub struct InstanceView<'a> {
    pub template: PoolRef<Template<'a>>,
    pub args: Seq<PoolRef<Ty>>,
    pub ty: PoolRef<Ty>,
}

/// A function that came out of a template for given arguments.
pub struct CompiledView<'a> {
    pub template: PoolRef<Template<'a>>,
    pub args: Seq<PoolRef<Ty>>,
    pub function: FunctionView,
}

/// The state of the lowerer: the scopes at the place that is being
/// lowered, the types and templates that were made, the types and the
/// functions that came out of templates, the interned strings, the functions
/// that were lowered, the number of names that were made for them, the byte
/// order of constants and the limit on the nesting of templates.
pub struct LowererView<'a> {
    pub scopes: Seq<ScopeView<'a>>,
    pub tys: Seq<TyView>,
    pub templates: Seq<TemplateView<'a>>,
    pub instances: Seq<InstanceView<'a>>,
    pub compiled: Seq<CompiledView<'a>>,
    pub names: Map<Seq<char>, u64>,
    pub count: nat,
    pub items: Seq<IRFunctionView>,
    pub counter: nat,
    pub endian: Endianness,
    pub max_depth: nat,
}

/// A name of a type that stood for nothing when it was read, with the
/// placeholder that was put in its place.
pub struct UnresolvedView {
    pub path: Seq<Symbol>,
    pub slot: PoolRef<Ty>,
    pub span: Span,
}

/// A template with arguments that is still to be instantiated, with the
/// placeholder that was put in its place.
pub struct UnresolvedGenericView {
    pub path: Seq<Symbol>,
    pub args: Seq<PoolRef<Ty>>,
    pub slot: PoolRef<Ty>,
    pub span: Span,
}

/// The names that are still to be resolved.
pub struct PendingView {
    pub unresolved: Seq<UnresolvedView>,
    pub generics: Seq<UnresolvedGenericView>,
}

/// A result with the state in which the lowering goes on.
pub type Lowered<'a, T> = Result<(T, LowererView<'a>), CompileError>;

/// A type with the state and the pending names behind it.
pub type Typed<'a, T> = Result<(T, LowererView<'a>, PendingView), CompileError>;

pub open spec fn no_pending() -> PendingView {
    PendingView { unresolved: Seq::empty(), generics: Seq::empty() }
}

/// The handle of the type at place `index`.
pub open spec fn ty_ref(index: nat) -> PoolRef<Ty> {
    PoolRef { index: index as usize, _marker: PhantomData }
}

/// The handle of the template at place `index`.
pub open spec fn template_ref<'a>(index: nat) -> PoolRef<Template<'a>> {
    PoolRef { index: index as usize, _marker: PhantomData }
}

pub open spec fn fail(kind: CompileErrorKind, span: Span) -> CompileError {
    CompileError { kind, span }
}

/// Adds a type to the pool.
pub open spec fn add_ty<'a>(st: LowererView<'a>, ty: TyView, span: Span) -> Lowered<
    'a,
    PoolRef<Ty>,
> {
    if st.tys.len() < usize::MAX {
        Ok((ty_ref(st.tys.len()), LowererView { tys: st.tys.push(ty), ..st }))
    } else {
        Err(fail(CompileErrorKind::LimitExceeded, span))
    }
}

/// The type that a type of the program stands for. A name that stands for
/// nothing yet, and a template with arguments, become placeholders that are
/// noted as pending.
pub open spec fn ast_type_to_ty<'a>(st: LowererView<'a>, pending: PendingView, ast_ty: ASTType)
    -> Typed<'a, PoolRef<Ty>>
    decreases ast_ty, 1nat, 0nat,
{
    match ast_ty.kind {
        ASTTypeKind::Path { symbols, generic_args } => if generic_args.len() > 0 {
            match ast_type_args_to_tys(st, pending, ast_ty, generic_args.len() as nat) {
                Err(e) => Err(e),
                Ok((args, st1, pending1)) => match add_ty(
                    st1,
                    TyView::PlaceholderUnknown,
                    ast_ty.span,
                ) {
                    Err(e) => Err(e),
                    Ok((slot, st2)) => Ok(
                        (
                            slot,
                            st2,
                            PendingView {
                                generics: pending1.generics.push(
                                    UnresolvedGenericView {
                                        path: symbols@,
                                        args,
                                        slot,
                                        span: ast_ty.span,
                                    },
                                ),
                                ..pending1
                            },
                        ),
                    ),
                },
            }
        } else {
            match resolve_ty(st.scopes, symbols@) {
                Some(ty) => Ok((ty, st, pending)),
                None => match add_ty(st, TyView::PlaceholderUnknown, ast_ty.span) {
                    Err(e) => Err(e),
                    Ok((slot, st1)) => Ok(
                        (
                            slot,
                            st1,
                            PendingView {
                                unresolved: pending.unresolved.push(
                                    UnresolvedView { path: symbols@, slot, span: ast_ty.span },
                                ),
                                ..pending
                            },
                        ),
                    ),
                },
            }
        },
        ASTTypeKind::PointerTo(pointee) => match ast_type_to_ty(st, pending, *pointee) {
            Err(e) => Err(e),
            Ok((ty, st1, pending1)) => match add_ty(st1, TyView::PointerTo(ty), ast_ty.span) {
                Err(e) => Err(e),
                Ok((pointer, st2)) => Ok((pointer, st2, pending1)),
            },
        },
    }
}

/// The types that the first `count` arguments of a template with arguments
/// stand for.
pub open spec fn ast_type_args_to_tys<'a>(
    st: LowererView<'a>,
    pending: PendingView,
    ast_ty: ASTType,
    count: nat,
) -> Typed<'a, Seq<PoolRef<Ty>>>
    decreases ast_ty, 0nat, count,
{
    if count == 0 {
        Ok((Seq::empty(), st, pending))
    } else {
        match ast_ty.kind {
            ASTTypeKind::Path { symbols, generic_args } => if count <= generic_args.len() {
                match ast_type_args_to_tys(st, pending, ast_ty, (count - 1) as nat) {
                    Err(e) => Err(e),
                    Ok((firsts, st1, pending1)) => match ast_type_to_ty(
                        st1,
                        pending1,
                        generic_args[count - 1],
                    ) {
                        Err(e) => Err(e),
                        Ok((last, st2, pending2)) => Ok((firsts.push(last), st2, pending2)),
                    },
                }
            } else {
                Ok((Seq::empty(), st, pending))
            },
            _ => Ok((Seq::empty(), st, pending)),
        }
    }
}

/// The first `count` fields of a struct, with their types and without
/// offsets.
pub open spec fn struct_fields<'a>(
    st: LowererView<'a>,
    pending: PendingView,
    fields: Seq<ASTNameAndType>,
    count: nat,
) -> Typed<'a, Seq<TyStructField>>
    decreases count,
{
    if count == 0 || count > fields.len() {
        Ok((Seq::empty(), st, pending))
    } else {
        match struct_fields(st, pending, fields, (count - 1) as nat) {
            Err(e) => Err(e),
            Ok((firsts, st1, pending1)) => match ast_type_to_ty(
                st1,
                pending1,
                fields[count - 1].ast_type,
            ) {
                Err(e) => Err(e),
                Ok((ty, st2, pending2)) => Ok(
                    (
                        firsts.push(TyStructField { offset: 0, name: fields[count - 1].name, ty }),
                        st2,
                        pending2,
                    ),
                ),
            },
        }
    }
}

/// The type of a struct, before its layout is computed.
pub open spec fn struct_def_to_ty<'a>(
    st: LowererView<'a>,
    pending: PendingView,
    struct_def: ASTStructDef,
) -> Typed<'a, PoolRef<Ty>> {
    match struct_fields(st, pending, struct_def.fields@, struct_def.fields.len() as nat) {
        Err(e) => Err(e),
        Ok((fields, st1, pending1)) => match add_ty(
            st1,
            TyView::Struct { fields, align: 0, size: 0 },
            struct_def.span,
        ) {
            Err(e) => Err(e),
            Ok((ty, st2)) => Ok((ty, st2, pending1)),
        },
    }
}

/// The scopes in which a template is instantiated: those in which it was
/// declared, and within them one in which its parameters stand for the
/// arguments.
pub open spec fn instantiation_scopes<'a>(
    template: TemplateView<'a>,
    args: Seq<PoolRef<Ty>>,
) -> Seq<ScopeView<'a>> {
    template.saved_scopes.push(
        ScopeView {
            tys: Seq::new(args.len(), |i: int| (seq![template.params[i]], args[i])),
            ..empty_scope()
        },
    )
}

/// The type that came out of the template for the arguments before, if
/// there is one.
pub open spec fn find_instance<'a>(
    instances: Seq<InstanceView<'a>>,
    template: PoolRef<Template<'a>>,
    args: Seq<PoolRef<Ty>>,
) -> Option<PoolRef<Ty>>
    decreases instances.len(),
{
    if instances.len() == 0 {
        None
    } else if instances.last().template == template && instances.last().args == args {
        Some(instances.last().ty)
    } else {
        find_instance(instances.drop_last(), template, args)
    }
}

/// The type that the template `template` of a struct, which has the
/// handle `handle`, gives for the arguments. Names in the struct stand for
/// what they stood for where the template was declared; the parameters stand
/// for the arguments. The type counts as what the template gives for the
/// arguments as soon as it exists; then the templates with arguments in the
/// struct are instantiated in turn, `depth` levels deep, so that a struct
/// that refers to itself finds itself.
pub open spec fn template_to_ty<'a>(
    st: LowererView<'a>,
    handle: PoolRef<Template<'a>>,
    template: TemplateView<'a>,
    args: Seq<PoolRef<Ty>>,
    depth: nat,
    span: Span,
) -> Lowered<'a, PoolRef<Ty>>
    decreases depth, 0nat, 0nat,
{
    if depth == 0 {
        Err(fail(CompileErrorKind::Template(TemplateError::DepthExceeded), span))
    } else if args.len() != template.params.len() {
        Err(fail(CompileErrorKind::Template(TemplateError::ArityMismatch), span))
    } else {
        match template.kind {
            TemplateKind::Function(_) => Err(
                fail(CompileErrorKind::Resolve(ResolveError::UnknownTemplate), span),
            ),
            TemplateKind::Struct(struct_def) => match struct_def_to_ty(
                LowererView { scopes: instantiation_scopes(template, args), ..st },
                no_pending(),
                *struct_def,
            ) {
                Err(e) => Err(e),
                Ok((ty, st1, pending)) => if pending.unresolved.len() > 0 {
                    Err(
                        fail(
                            CompileErrorKind::Resolve(ResolveError::UnknownType),
                            pending.unresolved[0].span,
                        ),
                    )
                } else {
                    match resolve_unresolved_generics(
                        LowererView {
                            instances: st1.instances.push(
                                InstanceView { template: handle, args, ty },
                            ),
                            ..st1
                        },
                        pending.generics,
                        (depth - 1) as nat,
                    ) {
                        Err(e) => Err(e),
                        Ok(((), st2)) => Ok((ty, LowererView { scopes: st.scopes, ..st2 })),
                    }
                },
            },
        }
    }
}

/// The type that the template gives for the arguments: the one that it
/// gave before for the same arguments, if there is one.
pub open spec fn instantiate<'a>(
    st: LowererView<'a>,
    template: PoolRef<Template<'a>>,
    args: Seq<PoolRef<Ty>>,
    depth: nat,
    span: Span,
) -> Lowered<'a, PoolRef<Ty>>
    decreases depth, 1nat, 0nat,
{
    match find_instance(st.instances, template, args) {
        Some(ty) => Ok((ty, st)),
        None => if template.index >= st.templates.len() {
            Err(fail(CompileErrorKind::Resolve(ResolveError::UnknownTemplate), span))
        } else {
            template_to_ty(st, template, st.templates[template.index as int], args, depth, span)
        },
    }
}

/// Puts a copy of the type `from` in the place of the placeholder `slot`.
pub open spec fn fill_slot<'a>(
    st: LowererView<'a>,
    slot: PoolRef<Ty>,
    from: PoolRef<Ty>,
    span: Span,
) -> Lowered<'a, ()> {
    if slot.index < st.tys.len() && from.index < st.tys.len() {
        Ok(((), LowererView { tys: st.tys.update(slot.index as int, st.tys[from.index as int]), ..st }))
    } else {
        Err(fail(CompileErrorKind::Layout(LayoutError::Unresolved), span))
    }
}

/// Instantiates the templates with arguments that are pending, in their
/// order, and puts what they give in the place of their placeholders.
pub open spec fn resolve_unresolved_generics<'a>(
    st: LowererView<'a>,
    generics: Seq<UnresolvedGenericView>,
    depth: nat,
) -> Lowered<'a, ()>
    decreases depth, 2nat, generics.len(),
{
    if generics.len() == 0 {
        Ok(((), st))
    } else {
        match resolve_unresolved_generics(st, generics.drop_last(), depth) {
            Err(e) => Err(e),
            Ok(((), st1)) => {
                let generic = generics.last();
                match resolve_template_ty(st1.scopes, generic.path) {
                    None => Err(
                        fail(
                            CompileErrorKind::Resolve(ResolveError::UnknownTemplate),
                            generic.span,
                        ),
                    ),
                    Some(template) => match instantiate(
                        st1,
                        template,
                        generic.args,
                        depth,
                        generic.span,
                    ) {
                        Err(e) => Err(e),
                        Ok((ty, st2)) => fill_slot(st2, generic.slot, ty, generic.span),
                    },
                }
            },
        }
    }
}

/// Puts the types that the pending names stand for by now in the place of
/// their placeholders. A name that stands for a template, which needs
/// arguments, or for nothing is an error.
pub open spec fn resolve_unresolved<'a>(st: LowererView<'a>, unresolved: Seq<UnresolvedView>)
    -> Lowered<'a, ()>
    decreases unresolved.len(),
{
    if unresolved.len() == 0 {
        Ok(((), st))
    } else {
        match resolve_unresolved(st, unresolved.drop_last()) {
            Err(e) => Err(e),
            Ok(((), st1)) => {
                let name = unresolved.last();
                match resolve_ty(st1.scopes, name.path) {
                    Some(ty) => fill_slot(st1, name.slot, ty, name.span),
                    None => if resolve_template_ty(st1.scopes, name.path) is Some {
                        Err(fail(CompileErrorKind::Resolve(ResolveError::GenericArity), name.span))
                    } else {
                        Err(fail(CompileErrorKind::Resolve(ResolveError::UnknownType), name.span))
                    },
                }
            },
        }
    }
}

/// Whether every type that a template gave for arguments among `before`
/// is what it gives for them among `after`.
pub open spec fn keeps<'a>(before: Seq<InstanceView<'a>>, after: Seq<InstanceView<'a>>) -> bool {
    forall|template: PoolRef<Template<'a>>, args: Seq<PoolRef<Ty>>|
        #[trigger] find_instance(before, template, args) is Some ==> find_instance(
            after,
            template,
            args,
        ) == find_instance(before, template, args)
}

/// Turning the types of a program into types leaves what the templates
/// gave as it is.
pub proof fn lemma_type_keeps_instances<'a>(
    st: LowererView<'a>,
    pending: PendingView,
    ast_ty: ASTType,
)
    ensures
        ast_type_to_ty(st, pending, ast_ty) matches Ok((_, after, _)) ==> after.instances
            == st.instances,
    decreases ast_ty, 1nat, 0nat,
{
    match ast_ty.kind {
        ASTTypeKind::Path { symbols, generic_args } => {
            if generic_args.len() > 0 {
                lemma_type_args_keep_instances(st, pending, ast_ty, generic_args.len() as nat);
            }
        },
        ASTTypeKind::PointerTo(pointee) => {
            lemma_type_keeps_instances(st, pending, *pointee);
        },
    }
}

/// Turning the arguments of a template into types leaves what the
/// templates gave as it is.
pub proof fn lemma_type_args_keep_instances<'a>(
    st: LowererView<'a>,
    pending: PendingView,
    ast_ty: ASTType,
    count: nat,
)
    ensures
        ast_type_args_to_tys(st, pending, ast_ty, count) matches Ok((_, after, _))
            ==> after.instances == st.instances,
    decreases ast_ty, 0nat, count,
{
    if count > 0 {
        match ast_ty.kind {
            ASTTypeKind::Path { symbols, generic_args } => {
                if count <= generic_args.len() {
                    lemma_type_args_keep_instances(st, pending, ast_ty, (count - 1) as nat);
                    match ast_type_args_to_tys(st, pending, ast_ty, (count - 1) as nat) {
                        Ok((_, st1, pending1)) => {
                            lemma_type_keeps_instances(st1, pending1, generic_args[count - 1]);
                        },
                        Err(_) => {},
                    }
                }
            },
            _ => {},
        }
    }
}

/// Turning the fields of a struct into fields with types leaves what the
/// templates gave as it is.
pub proof fn lemma_fields_keep_instances<'a>(
    st: LowererView<'a>,
    pending: PendingView,
    fields: Seq<ASTNameAndType>,
    count: nat,
)
    ensures
        struct_fields(st, pending, fields, count) matches Ok((_, after, _)) ==> after.instances
            == st.instances,
    decreases count,
{
    if !(count == 0 || count > fields.len()) {
        lemma_fields_keep_instances(st, pending, fields, (count - 1) as nat);
        match struct_fields(st, pending, fields, (count - 1) as nat) {
            Ok((_, st1, pending1)) => {
                lemma_type_keeps_instances(st1, pending1, fields[count - 1].ast_type);
            },
            Err(_) => {},
        }
    }
}

/// A template gives a type for arguments for which it has given none, and
/// what the templates gave before stays.
pub proof fn lemma_template_keeps<'a>(
    st: LowererView<'a>,
    handle: PoolRef<Template<'a>>,
    template: TemplateView<'a>,
    args: Seq<PoolRef<Ty>>,
    depth: nat,
    span: Span,
)
    requires
        find_instance(st.instances, handle, args) is None,
        template_to_ty(st, handle, template, args, depth, span) is Ok,
    ensures
        ({
            let (ty, after) = template_to_ty(st, handle, template, args, depth, span)->Ok_0;
            &&& keeps(st.instances, after.instances)
            &&& find_instance(after.instances, handle, args) == Some(ty)
        }),
    decreases depth, 0nat, 0nat,
{
    match template.kind {
        TemplateKind::Function(_) => {},
        TemplateKind::Struct(struct_def) => {
            let entered = LowererView { scopes: instantiation_scopes(template, args), ..st };
            lemma_fields_keep_instances(
                entered,
                no_pending(),
                struct_def.fields@,
                struct_def.fields.len() as nat,
            );
            let (ty, st1, pending) = struct_def_to_ty(entered, no_pending(), *struct_def)->Ok_0;
            let noted = LowererView {
                instances: st1.instances.push(InstanceView { template: handle, args, ty }),
                ..st1
            };
            assert(noted.instances.drop_last() == st.instances);
            assert(keeps(st.instances, noted.instances));
            lemma_generics_keep(noted, pending.generics, (depth - 1) as nat);
        },
    }
}

/// What a template gives for arguments is noted, and what the templates
/// gave before stays.
pub proof fn lemma_instantiate_keeps<'a>(
    st: LowererView<'a>,
    template: PoolRef<Template<'a>>,
    args: Seq<PoolRef<Ty>>,
    depth: nat,
    span: Span,
)
    requires
        instantiate(st, template, args, depth, span) is Ok,
    ensures
        ({
            let (ty, after) = instantiate(st, template, args, depth, span)->Ok_0;
            &&& keeps(st.instances, after.instances)
            &&& find_instance(after.instances, template, args) == Some(ty)
        }),
    decreases depth, 1nat, 0nat,
{
    if find_instance(st.instances, template, args) is None {
        lemma_template_keeps(
            st,
            template,
            st.templates[template.index as int],
            args,
            depth,
            span,
        );
    }
}

/// Instantiating the pending templates with arguments leaves what the
/// templates gave before as it is.
pub proof fn lemma_generics_keep<'a>(
    st: LowererView<'a>,
    generics: Seq<UnresolvedGenericView>,
    depth: nat,
)
    requires
        resolve_unresolved_generics(st, generics, depth) is Ok,
    ensures
        keeps(st.instances, resolve_unresolved_generics(st, generics, depth)->Ok_0.1.instances),
    decreases depth, 2nat, generics.len(),
{
    if generics.len() > 0 {
        lemma_generics_keep(st, generics.drop_last(), depth);
        let st1 = resolve_unresolved_generics(st, generics.drop_last(), depth)->Ok_0.1;
        let generic = generics.last();
        let template = resolve_template_ty(st1.scopes, generic.path)->0;
        lemma_instantiate_keeps(st1, template, generic.args, depth, generic.span);
    }
}

/// Where a template gave a type for arguments, it gives the same type for
/// the same arguments again, and nothing changes.
pub proof fn lemma_instantiate_again<'a>(
    st: LowererView<'a>,
    template: PoolRef<Template<'a>>,
    args: Seq<PoolRef<Ty>>,
    depth: nat,
    span: Span,
    again_depth: nat,
    again_span: Span,
)
    requires
        instantiate(st, template, args, depth, span) is Ok,
    ensures
        ({
            let (ty, after) = instantiate(st, template, args, depth, span)->Ok_0;
            instantiate(after, template, args, again_depth, again_span) == Ok::<
                (PoolRef<Ty>, LowererView<'a>),
                CompileError,
            >((ty, after))
        }),
{
    lemma_instantiate_keeps(st, template, args, depth, span);
}

/// Adds a template to the pool.
pub open spec fn add_template<'a>(st: LowererView<'a>, template: TemplateView<'a>, span: Span)
    -> Lowered<'a, PoolRef<Template<'a>>> {
    if st.templates.len() < usize::MAX {
        Ok(
            (
                template_ref(st.templates.len()),
                LowererView { templates: st.templates.push(template), ..st },
            ),
        )
    } else {
        Err(fail(CompileErrorKind::LimitExceeded, span))
    }
}

/// The state after `f` was applied to the innermost scope.
pub open spec fn in_last_scope<'a>(
    st: LowererView<'a>,
    f: spec_fn(ScopeView<'a>) -> ScopeView<'a>,
) -> LowererView<'a> {
    LowererView { scopes: with_last(st.scopes, f), ..st }
}

/// Declares the template `template` in the innermost scope.
pub open spec fn with_template<'a>(st: LowererView<'a>, template: PoolRef<Template<'a>>)
    -> LowererView<'a> {
    in_last_scope(
        st,
        |scope: ScopeView<'a>| ScopeView { templates: scope.templates.push(template), ..scope },
    )
}

/// Declares in the innermost scope that `name` stands for the template of
/// a type `template`.
pub open spec fn with_template_ty<'a>(
    st: LowererView<'a>,
    name: Symbol,
    template: PoolRef<Template<'a>>,
) -> LowererView<'a> {
    in_last_scope(
        st,
        |scope: ScopeView<'a>|
            ScopeView {
                path_to_template_ty: scope.path_to_template_ty.push((seq![name], template)),
                ..scope
            },
    )
}

/// Declares in the innermost scope that `name` stands for the type `ty`.
pub open spec fn with_ty<'a>(st: LowererView<'a>, name: Symbol, ty: PoolRef<Ty>) -> LowererView<
    'a,
> {
    in_last_scope(
        st,
        |scope: ScopeView<'a>| ScopeView { tys: scope.tys.push((seq![name], ty)), ..scope },
    )
}

/// Makes a template of an item that stands within templates with the
/// parameters `params`, the outermost first. A template within the template
/// adds its parameters for the items within it. The scopes of the template
/// are set later, when the types of the scope are known.
pub open spec fn process_templated_item<'a>(
    st: LowererView<'a>,
    params: Seq<Symbol>,
    item: &'a ASTItem,
    created: Seq<PoolRef<Template<'a>>>,
) -> Lowered<'a, Seq<PoolRef<Template<'a>>>>
    decreases item, 1nat, 0nat,
{
    match &item.kind {
        ASTItemKind::FunctionDef(function_def) => match add_template(
            st,
            TemplateView {
                kind: TemplateKind::Function(function_def),
                saved_scopes: Seq::empty(),
                params,
                path: seq![function_def.name],
            },
            function_def.span,
        ) {
            Err(e) => Err(e),
            Ok((template, st1)) => Ok((created.push(template), with_template(st1, template))),
        },
        ASTItemKind::StructDef(struct_def) => match add_template(
            st,
            TemplateView {
                kind: TemplateKind::Struct(struct_def),
                saved_scopes: Seq::empty(),
                params,
                path: seq![struct_def.name],
            },
            struct_def.span,
        ) {
            Err(e) => Err(e),
            Ok((template, st1)) => Ok(
                (
                    created.push(template),
                    with_template_ty(with_template(st1, template), struct_def.name, template),
                ),
            ),
        },
        ASTItemKind::Template(template) => process_templated_items(
            st,
            params + template.params@,
            item,
            template.items.len() as nat,
            created,
        ),
    }
}

/// Makes templates of the first `count` items of the template `item`.
pub open spec fn process_templated_items<'a>(
    st: LowererView<'a>,
    params: Seq<Symbol>,
    item: &'a ASTItem,
    count: nat,
    created: Seq<PoolRef<Template<'a>>>,
) -> Lowered<'a, Seq<PoolRef<Template<'a>>>>
    decreases item, 0nat, count,
{
    if count == 0 {
        Ok((created, st))
    } else {
        match &item.kind {
            ASTItemKind::Template(template) => if count <= template.items.len() {
                match process_templated_items(st, params, item, (count - 1) as nat, created) {
                    Err(e) => Err(e),
                    Ok((created1, st1)) => process_templated_item(
                        st1,
                        params,
                        &template.items[count - 1],
                        created1,
                    ),
                }
            } else {
                Ok((created, st))
            },
            _ => Ok((created, st)),
        }
    }
}

/// Makes the templates of the templates among the first `count` items.
pub open spec fn process_template_items<'a>(
    st: LowererView<'a>,
    items: Seq<&'a ASTItem>,
    count: nat,
    created: Seq<PoolRef<Template<'a>>>,
) -> Lowered<'a, Seq<PoolRef<Template<'a>>>>
    decreases count,
{
    if count == 0 || count > items.len() {
        Ok((created, st))
    } else {
        match process_template_items(st, items, (count - 1) as nat, created) {
            Err(e) => Err(e),
            Ok((created1, st1)) => match &items[count - 1].kind {
                ASTItemKind::Template(template) => process_templated_items(
                    st1,
                    template.params@,
                    items[count - 1],
                    template.items.len() as nat,
                    created1,
                ),
                _ => Ok((created1, st1)),
            },
        }
    }
}

/// Makes the types of the structs among the first `count` items and
/// declares them in the innermost scope.
pub open spec fn register_structs<'a>(
    st: LowererView<'a>,
    pending: PendingView,
    items: Seq<&'a ASTItem>,
    count: nat,
) -> Typed<'a, ()>
    decreases count,
{
    if count == 0 || count > items.len() {
        Ok(((), st, pending))
    } else {
        match register_structs(st, pending, items, (count - 1) as nat) {
            Err(e) => Err(e),
            Ok(((), st1, pending1)) => match &items[count - 1].kind {
                ASTItemKind::StructDef(struct_def) => match struct_def_to_ty(
                    st1,
                    pending1,
                    *struct_def,
                ) {
                    Err(e) => Err(e),
                    Ok((ty, st2, pending2)) => Ok(
                        ((), with_ty(st2, struct_def.name, ty), pending2),
                    ),
                },
                _ => Ok(((), st1, pending1)),
            },
        }
    }
}

/// Gives the first `count` of the templates `created` the present scopes
/// as the scopes in which they were declared.
pub open spec fn save_scopes<'a>(
    st: LowererView<'a>,
    created: Seq<PoolRef<Template<'a>>>,
    count: nat,
) -> LowererView<'a>
    decreases count,
{
    if count == 0 || count > created.len() {
        st
    } else {
        let st1 = save_scopes(st, created, (count - 1) as nat);
        let template = created[count - 1];
        if template.index < st1.templates.len() {
            LowererView {
                templates: st1.templates.update(
                    template.index as int,
                    TemplateView {
                        saved_scopes: st1.scopes,
                        ..st1.templates[template.index as int]
                    },
                ),
                ..st1
            }
        } else {
            st1
        }
    }
}

/// The place that is given for an error that belongs to no place of the
/// text.
pub open spec fn no_span() -> Span {
    Span { start: 0, len: 0 }
}

/// Makes the types of the structs among the items: declares them, resolves
/// the names in them, gives the templates that were made of the items their
/// scopes, instantiates the templates with arguments, and computes the
/// layouts of all types that are declared.
pub open spec fn process_type_items<'a>(
    st: LowererView<'a>,
    items: Seq<&'a ASTItem>,
    created: Seq<PoolRef<Template<'a>>>,
) -> Lowered<'a, ()> {
    match register_structs(st, no_pending(), items, items.len()) {
        Err(e) => Err(e),
        Ok(((), st1, pending)) => match resolve_unresolved(st1, pending.unresolved) {
            Err(e) => Err(e),
            Ok(((), st2)) => {
                let st3 = save_scopes(st2, created, created.len());
                match resolve_unresolved_generics(st3, pending.generics, st3.max_depth) {
                    Err(e) => Err(e),
                    Ok(((), st4)) => relayout_all(
                        st4,
                        declared_tys(st4.scopes),
                        declared_tys(st4.scopes).len(),
                        no_span(),
                    ),
                }
            },
        },
    }
}

/// Makes the templates and the types of the items.
pub open spec fn process_items<'a>(st: LowererView<'a>, items: Seq<&'a ASTItem>) -> Lowered<
    'a,
    (),
> {
    match process_template_items(st, items, items.len(), Seq::empty()) {
        Err(e) => Err(e),
        Ok((created, st1)) => process_type_items(st1, items, created),
    }
}

/// Computes the layouts of the first `count` of the given types.
pub open spec fn relayout_all<'a>(
    st: LowererView<'a>,
    tys: Seq<PoolRef<Ty>>,
    count: nat,
    span: Span,
) -> Lowered<'a, ()>
    decreases count,
{
    if count == 0 || count > tys.len() {
        Ok(((), st))
    } else {
        match relayout_all(st, tys, (count - 1) as nat, span) {
            Err(e) => Err(e),
            Ok(((), st1)) => relayout_one(st1, tys[count - 1], span),
        }
    }
}

/// Computes the layout of the type `ty`.
pub open spec fn relayout_one<'a>(st: LowererView<'a>, ty: PoolRef<Ty>, span: Span) -> Lowered<
    'a,
    (),
> {
    if ty.index >= st.tys.len() {
        Err(fail(CompileErrorKind::Layout(LayoutError::Unresolved), span))
    } else {
        match relayout(st.tys, ty.index as int, st.tys.len()) {
            Err(e) => Err(fail(CompileErrorKind::Layout(e), span)),
            Ok(tys) => Ok(((), LowererView { tys, ..st })),
        }
    }
}

} // verus!
