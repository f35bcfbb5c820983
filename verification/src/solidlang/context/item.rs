//! The scopes of the items of a program: which types, templates and
//! functions a name stands for at a place.

use crate::globals::{StringInterner, Symbol};
use crate::solidlang::context::function::{copy_symbols, same_path, Function, FunctionView};
use crate::solidlang::context::pool::{Pool, PoolRef};
use crate::solidlang::context::template::{Template, TemplateKind, TemplateView};
use crate::solidlang::context::ty::{DefaultTys, Ty};
use vstd::prelude::*;

verus! {

/// The items that one scope declares.
pub struct ItemScope<'a> {
    tys: Vec<(Vec<Symbol>, PoolRef<Ty>)>,
    templates: Vec<PoolRef<Template<'a>>>,
    functions: Vec<Function>,
    path_to_template_ty: Vec<(Vec<Symbol>, PoolRef<Template<'a>>)>,
}

/// What a scope declares, in the order of the declarations: the types and
/// the templates of types by their paths, all templates, and the functions.
pub struct ScopeView<'a> {
    pub tys: Seq<(Seq<Symbol>, PoolRef<Ty>)>,
    pub templates: Seq<PoolRef<Template<'a>>>,
    pub functions: Seq<FunctionView>,
    pub path_to_template_ty: Seq<(Seq<Symbol>, PoolRef<Template<'a>>)>,
}

/// The scope that declares nothing.
pub open spec fn empty_scope<'a>() -> ScopeView<'a> {
    ScopeView {
        tys: Seq::empty(),
        templates: Seq::empty(),
        functions: Seq::empty(),
        path_to_template_ty: Seq::empty(),
    }
}

/// The views of declarations by path.
pub open spec fn paths_view<T>(entries: Seq<(Vec<Symbol>, T)>) -> Seq<(Seq<Symbol>, T)> {
    entries.map_values(|entry: (Vec<Symbol>, T)| (entry.0@, entry.1))
}

/// The views of functions.
pub open spec fn functions_view(functions: Seq<Function>) -> Seq<FunctionView> {
    functions.map_values(|function: Function| function@)
}

impl<'a> View for ItemScope<'a> {
    type V = ScopeView<'a>;

    closed spec fn view(&self) -> ScopeView<'a> {
        ScopeView {
            tys: paths_view(self.tys@),
            templates: self.templates@,
            functions: functions_view(self.functions@),
            path_to_template_ty: paths_view(self.path_to_template_ty@),
        }
    }
}

/// The views of scopes.
pub open spec fn scopes_view<'a>(scopes: Seq<ItemScope<'a>>) -> Seq<ScopeView<'a>> {
    scopes.map_values(|scope: ItemScope<'a>| scope@)
}

/// What the last declaration of `path` among `entries` declares.
pub open spec fn lookup<T>(entries: Seq<(Seq<Symbol>, T)>, path: Seq<Symbol>) -> Option<T>
    decreases entries.len(),
{
    if entries.len() == 0 {
        None
    } else if entries.last().0 == path {
        Some(entries.last().1)
    } else {
        lookup(entries.drop_last(), path)
    }
}

/// The type that `path` stands for: the one that the innermost scope with
/// a declaration of `path` declares.
pub open spec fn resolve_ty<'a>(scopes: Seq<ScopeView<'a>>, path: Seq<Symbol>) -> Option<
    PoolRef<Ty>,
>
    decreases scopes.len(),
{
    if scopes.len() == 0 {
        None
    } else {
        match lookup(scopes.last().tys, path) {
            Some(ty) => Some(ty),
            None => resolve_ty(scopes.drop_last(), path),
        }
    }
}

/// The template of a type that `path` stands for: the one that the
/// innermost scope with a declaration of `path` declares.
pub open spec fn resolve_template_ty<'a>(scopes: Seq<ScopeView<'a>>, path: Seq<Symbol>) -> Option<
    PoolRef<Template<'a>>,
>
    decreases scopes.len(),
{
    if scopes.len() == 0 {
        None
    } else {
        match lookup(scopes.last().path_to_template_ty, path) {
            Some(template) => Some(template),
            None => resolve_template_ty(scopes.drop_last(), path),
        }
    }
}

/// The functions among `functions` with the path `path`, in their order.
pub open spec fn functions_at(functions: Seq<FunctionView>, path: Seq<Symbol>) -> Seq<
    FunctionView,
> {
    functions.filter(|function: FunctionView| function.path == path)
}

/// The functions with the path `path` that are visible: those of the
/// innermost scope first.
pub open spec fn resolve_function<'a>(scopes: Seq<ScopeView<'a>>, path: Seq<Symbol>) -> Seq<
    FunctionView,
>
    decreases scopes.len(),
{
    if scopes.len() == 0 {
        Seq::empty()
    } else {
        functions_at(scopes.last().functions, path) + resolve_function(scopes.drop_last(), path)
    }
}

/// Whether one of the entries from the index `from` on declares `path`.
pub open spec fn declared_from<T>(entries: Seq<(Seq<Symbol>, T)>, from: int, path: Seq<Symbol>)
    -> bool
    decreases entries.len() - from,
{
    if from < 0 || from >= entries.len() {
        false
    } else {
        entries[from].0 == path || declared_from(entries, from + 1, path)
    }
}

/// What the entries from the index `from` on bind: for each path that
/// they declare, what the last declaration of the path declares, and
/// nothing for the declarations that it replaces.
pub open spec fn bound_from<T>(entries: Seq<(Seq<Symbol>, T)>, from: int) -> Seq<T>
    decreases entries.len() - from,
{
    if from < 0 || from >= entries.len() {
        Seq::empty()
    } else if declared_from(entries, from + 1, entries[from].0) {
        bound_from(entries, from + 1)
    } else {
        seq![entries[from].1] + bound_from(entries, from + 1)
    }
}

/// The types that the scopes bind, those of the outermost scope first:
/// one for each path that a scope declares, which is the type that the path
/// stands for in that scope. A type that an inner scope shadows is among
/// them; one whose path was declared again in the same scope is not.
pub open spec fn declared_tys<'a>(scopes: Seq<ScopeView<'a>>) -> Seq<PoolRef<Ty>>
    decreases scopes.len(),
{
    if scopes.len() == 0 {
        Seq::empty()
    } else {
        declared_tys(scopes.drop_last()) + bound_from(scopes.last().tys, 0)
    }
}

/// Whether a path is declared from `from` on does not depend on a
/// declaration of the same path that another one follows.
proof fn lemma_declared_from_twice<T>(
    entries: Seq<(Seq<Symbol>, T)>,
    path: Seq<Symbol>,
    first: T,
    second: T,
    from: int,
    asked: Seq<Symbol>,
)
    requires
        0 <= from <= entries.len(),
    ensures
        declared_from(entries.push((path, first)).push((path, second)), from, asked)
            == declared_from(entries.push((path, second)), from, asked),
    decreases entries.len() - from,
{
    let twice = entries.push((path, first)).push((path, second));
    let once = entries.push((path, second));
    if from < entries.len() {
        assert(twice[from] == entries[from]);
        assert(once[from] == entries[from]);
        lemma_declared_from_twice(entries, path, first, second, from + 1, asked);
    } else {
        assert(twice[from].0 == path);
        assert(twice[from + 1].0 == path);
        assert(once[from].0 == path);
        assert(!declared_from(twice, from + 2, asked));
        assert(!declared_from(once, from + 1, asked));
        assert(declared_from(twice, from + 1, asked) == (path == asked));
    }
}

/// What entries bind from `from` on where a path is declared twice in a
/// row is what they bind where it is declared only the second time.
proof fn lemma_bound_from_twice<T>(
    entries: Seq<(Seq<Symbol>, T)>,
    path: Seq<Symbol>,
    first: T,
    second: T,
    from: int,
)
    requires
        0 <= from <= entries.len(),
    ensures
        bound_from(entries.push((path, first)).push((path, second)), from) == bound_from(
            entries.push((path, second)),
            from,
        ),
    decreases entries.len() - from,
{
    let twice = entries.push((path, first)).push((path, second));
    let once = entries.push((path, second));
    if from < entries.len() {
        assert(twice[from] == entries[from]);
        assert(once[from] == entries[from]);
        lemma_declared_from_twice(entries, path, first, second, from + 1, entries[from].0);
        lemma_bound_from_twice(entries, path, first, second, from + 1);
    } else {
        assert(twice[from].0 == path);
        assert(twice[from + 1] == (path, second));
        assert(once[from] == (path, second));
        assert(declared_from(twice, from + 1, path));
        assert(!declared_from(twice, from + 2, path));
        assert(!declared_from(once, from + 1, path));
        assert(bound_from(twice, from + 2) =~= Seq::<T>::empty());
        assert(bound_from(once, from + 1) =~= Seq::<T>::empty());
        assert(bound_from(twice, from + 1) =~= seq![second]);
    }
}

/// A path that is declared again in the innermost scope stands for what
/// the second declaration says, and the scopes bind what they would bind if
/// the first declaration had not been made.
pub proof fn lemma_declared_again<'a>(
    scopes: Seq<ScopeView<'a>>,
    path: Seq<Symbol>,
    first: PoolRef<Ty>,
    second: PoolRef<Ty>,
)
    requires
        scopes.len() > 0,
    ensures
        ({
            let twice = with_last(
                with_last(
                    scopes,
                    |scope: ScopeView<'a>| ScopeView { tys: scope.tys.push((path, first)), ..scope },
                ),
                |scope: ScopeView<'a>| ScopeView { tys: scope.tys.push((path, second)), ..scope },
            );
            let once = with_last(
                scopes,
                |scope: ScopeView<'a>| ScopeView { tys: scope.tys.push((path, second)), ..scope },
            );
            &&& declared_tys(twice) == declared_tys(once)
            &&& resolve_ty(twice, path) == Some(second)
        }),
{
    let scope = scopes.last();
    let twice = with_last(
        with_last(
            scopes,
            |scope: ScopeView<'a>| ScopeView { tys: scope.tys.push((path, first)), ..scope },
        ),
        |scope: ScopeView<'a>| ScopeView { tys: scope.tys.push((path, second)), ..scope },
    );
    let once = with_last(
        scopes,
        |scope: ScopeView<'a>| ScopeView { tys: scope.tys.push((path, second)), ..scope },
    );
    lemma_bound_from_twice(scope.tys, path, first, second, 0);
    assert(twice.drop_last() =~= scopes.drop_last());
    assert(once.drop_last() =~= scopes.drop_last());
    assert(twice.last().tys == scope.tys.push((path, first)).push((path, second)));
    assert(once.last().tys == scope.tys.push((path, second)));
}

/// A copy of declarations by path.
fn copy_paths<T: Copy>(entries: &Vec<(Vec<Symbol>, T)>) -> (r: Vec<(Vec<Symbol>, T)>)
    ensures
        paths_view(r@) == paths_view(entries@),
{
    let mut r: Vec<(Vec<Symbol>, T)> = Vec::new();
    let mut i: usize = 0;
    while i < entries.len()
        invariant
            i <= entries.len(),
            paths_view(r@) == paths_view(entries@.take(i as int)),
        decreases entries.len() - i,
    {
        let entry = (copy_symbols(&entries[i].0), entries[i].1);
        proof {
            assert(entries@.take(i + 1) =~= entries@.take(i as int).push(entries@[i as int]));
            assert(paths_view(r@.push(entry)) =~= paths_view(r@).push((entry.0@, entry.1)));
            assert(paths_view(entries@.take(i as int).push(entries@[i as int])) =~= paths_view(
                entries@.take(i as int),
            ).push((entries@[i as int].0@, entries@[i as int].1)));
        }
        r.push(entry);
        i = i + 1;
    }
    assert(entries@.take(entries.len() as int) =~= entries@);
    r
}

/// A copy of handles.
fn copy_refs<T>(refs: &Vec<PoolRef<T>>) -> (r: Vec<PoolRef<T>>)
    ensures
        r@ == refs@,
{
    let mut r: Vec<PoolRef<T>> = Vec::new();
    let mut i: usize = 0;
    while i < refs.len()
        invariant
            i <= refs.len(),
            r@ == refs@.take(i as int),
        decreases refs.len() - i,
    {
        r.push(refs[i]);
        i = i + 1;
        assert(refs@.take(i as int) =~= refs@.take(i - 1).push(refs@[i - 1]));
    }
    assert(refs@.take(refs.len() as int) =~= refs@);
    r
}

/// A copy of functions.
pub fn copy_functions(functions: &Vec<Function>) -> (r: Vec<Function>)
    ensures
        functions_view(r@) == functions_view(functions@),
{
    let mut r: Vec<Function> = Vec::new();
    let mut i: usize = 0;
    while i < functions.len()
        invariant
            i <= functions.len(),
            functions_view(r@) == functions_view(functions@.take(i as int)),
        decreases functions.len() - i,
    {
        let function = functions[i].clone();
        proof {
            assert(functions@.take(i + 1) =~= functions@.take(i as int).push(
                functions@[i as int],
            ));
            assert(functions_view(r@.push(function)) =~= functions_view(r@).push(function@));
            assert(functions_view(functions@.take(i as int).push(functions@[i as int]))
                =~= functions_view(functions@.take(i as int)).push(functions@[i as int]@));
        }
        r.push(function);
        i = i + 1;
    }
    assert(functions@.take(functions.len() as int) =~= functions@);
    r
}

impl<'a> ItemScope<'a> {
    fn new() -> (r: Self)
        ensures
            r@ == empty_scope(),
    {
        let r = Self {
            tys: Vec::new(),
            templates: Vec::new(),
            functions: Vec::new(),
            path_to_template_ty: Vec::new(),
        };
        assert(r@.tys =~= Seq::empty());
        assert(r@.functions =~= Seq::empty());
        assert(r@.path_to_template_ty =~= Seq::empty());
        r
    }
}

impl<'a> Clone for ItemScope<'a> {
    fn clone(&self) -> (r: Self)
        ensures
            r@ == self@,
    {
        Self {
            tys: copy_paths(&self.tys),
            templates: copy_refs(&self.templates),
            functions: copy_functions(&self.functions),
            path_to_template_ty: copy_paths(&self.path_to_template_ty),
        }
    }
}

/// A copy of scopes.
fn copy_scopes<'a>(scopes: &Vec<ItemScope<'a>>) -> (r: Vec<ItemScope<'a>>)
    ensures
        scopes_view(r@) == scopes_view(scopes@),
{
    let mut r: Vec<ItemScope<'a>> = Vec::new();
    let mut i: usize = 0;
    while i < scopes.len()
        invariant
            i <= scopes.len(),
            scopes_view(r@) == scopes_view(scopes@.take(i as int)),
        decreases scopes.len() - i,
    {
        let scope = scopes[i].clone();
        proof {
            assert(scopes@.take(i + 1) =~= scopes@.take(i as int).push(scopes@[i as int]));
            assert(scopes_view(r@.push(scope)) =~= scopes_view(r@).push(scope@));
            assert(scopes_view(scopes@.take(i as int).push(scopes@[i as int])) =~= scopes_view(
                scopes@.take(i as int),
            ).push(scopes@[i as int]@));
        }
        r.push(scope);
        i = i + 1;
    }
    assert(scopes@.take(scopes.len() as int) =~= scopes@);
    r
}

/// The scopes as they were at one place of the program.
pub struct SavedScopes<'a> {
    scopes: Vec<ItemScope<'a>>,
}

impl<'a> View for SavedScopes<'a> {
    type V = Seq<ScopeView<'a>>;

    closed spec fn view(&self) -> Seq<ScopeView<'a>> {
        scopes_view(self.scopes@)
    }
}

impl<'a> SavedScopes<'a> {
    pub fn empty() -> (r: Self)
        ensures
            r@ == Seq::<ScopeView<'a>>::empty(),
    {
        let r = Self { scopes: Vec::new() };
        assert(r@ =~= Seq::<ScopeView<'a>>::empty());
        r
    }
}

impl<'a> Clone for SavedScopes<'a> {
    fn clone(&self) -> (r: Self)
        ensures
            r@ == self@,
    {
        Self { scopes: copy_scopes(&self.scopes) }
    }
}

/// The scopes at the place of the program that is being lowered, the
/// innermost last.
pub struct ItemContext<'a> {
    scopes: Vec<ItemScope<'a>>,
}

impl<'a> View for ItemContext<'a> {
    type V = Seq<ScopeView<'a>>;

    closed spec fn view(&self) -> Seq<ScopeView<'a>> {
        scopes_view(self.scopes@)
    }
}

impl<'a> Clone for ItemContext<'a> {
    fn clone(&self) -> (r: Self)
        ensures
            r@ == self@,
    {
        Self { scopes: copy_scopes(&self.scopes) }
    }
}

/// The names of the primitive types, in the order of
/// [`crate::solidlang::context::ty::default_primitives`].
pub open spec fn default_names() -> Seq<Seq<char>> {
    seq![
        "i8"@,
        "u8"@,
        "i16"@,
        "u16"@,
        "i32"@,
        "u32"@,
        "i64"@,
        "u64"@,
        "bool"@,
        "char"@,
        "void"@,
    ]
}

/// Looks `path` up among the declarations.
fn find<T: Copy>(entries: &Vec<(Vec<Symbol>, T)>, path: &Vec<Symbol>) -> (r: Option<T>)
    ensures
        r == lookup(paths_view(entries@), path@),
{
    let mut i: usize = entries.len();
    proof {
        assert(paths_view(entries@).take(i as int) =~= paths_view(entries@));
    }
    while i > 0
        invariant
            i <= entries.len(),
            lookup(paths_view(entries@), path@) == lookup(
                paths_view(entries@).take(i as int),
                path@,
            ),
        decreases i,
    {
        i = i - 1;
        let ghost view = paths_view(entries@);
        proof {
            assert(view.take(i + 1).last() == view[i as int]);
            assert(view.take(i + 1).drop_last() =~= view.take(i as int));
        }
        if same_path(&entries[i].0, path) {
            return Some(entries[i].1);
        }
    }
    proof {
        assert(paths_view(entries@).take(paths_view(entries@).len() as int) =~= paths_view(
            entries@,
        ));
    }
    None
}

/// What the scopes are after `f` was applied to the innermost one.
pub open spec fn with_last<'a>(
    scopes: Seq<ScopeView<'a>>,
    f: spec_fn(ScopeView<'a>) -> ScopeView<'a>,
) -> Seq<ScopeView<'a>> {
    scopes.drop_last().push(f(scopes.last()))
}

impl<'a> ItemContext<'a> {
    pub fn new() -> (r: Self)
        ensures
            r@ == Seq::<ScopeView<'a>>::empty(),
    {
        let r = Self { scopes: Vec::new() };
        assert(r@ =~= Seq::<ScopeView<'a>>::empty());
        r
    }

    /// The number of scopes.
    pub fn depth(&self) -> (r: usize)
        ensures
            r == self@.len(),
    {
        self.scopes.len()
    }

    /// Begins a scope within the innermost one.
    pub fn start_scope(&mut self)
        ensures
            final(self)@ == old(self)@.push(empty_scope()),
    {
        let scope = ItemScope::new();
        proof {
            assert(scopes_view(self.scopes@.push(scope)) =~= scopes_view(self.scopes@).push(
                scope@,
            ));
        }
        self.scopes.push(scope);
    }

    /// Ends the innermost scope, if there is one.
    pub fn close_scope(&mut self)
        ensures
            final(self)@ == if old(self)@.len() > 0 {
                old(self)@.drop_last()
            } else {
                old(self)@
            },
    {
        self.scopes.pop();
        proof {
            if old(self)@.len() > 0 {
                assert(scopes_view(self.scopes@) =~= scopes_view(old(self).scopes@).drop_last());
            }
        }
    }

    /// A copy of the scopes as they are.
    pub fn save_scopes(&self) -> (r: SavedScopes<'a>)
        ensures
            r@ == self@,
    {
        SavedScopes { scopes: copy_scopes(&self.scopes) }
    }

    /// Puts the scopes of `with` in the place of the present ones, which
    /// are returned.
    pub fn swap_scopes(&mut self, with: SavedScopes<'a>) -> (r: SavedScopes<'a>)
        ensures
            final(self)@ == with@,
            r@ == old(self)@,
    {
        let mut scopes = with;
        std::mem::swap(&mut scopes.scopes, &mut self.scopes);
        scopes
    }

    /// Declares in the innermost scope that `path` stands for the type `ty`.
    pub fn register_ty(&mut self, path: &Vec<Symbol>, ty: PoolRef<Ty>)
        requires
            old(self)@.len() > 0,
        ensures
            final(self)@ == with_last(
                old(self)@,
                |scope: ScopeView<'a>| ScopeView { tys: scope.tys.push((path@, ty)), ..scope },
            ),
    {
        let mut scope = self.scopes.pop().unwrap();
        let ghost before = scope@;
        let entry = (copy_symbols(path), ty);
        proof {
            assert(paths_view(scope.tys@.push(entry)) =~= paths_view(scope.tys@).push(
                (path@, ty),
            ));
        }
        scope.tys.push(entry);
        proof {
            let rest = self.scopes@;
            assert(scopes_view(rest.push(scope)) =~= scopes_view(rest).push(scope@));
            assert(scopes_view(rest) =~= old(self)@.drop_last());
        }
        self.scopes.push(scope);
    }

    /// Declares the template `template` in the innermost scope.
    pub fn register_template(&mut self, template: PoolRef<Template<'a>>)
        requires
            old(self)@.len() > 0,
        ensures
            final(self)@ == with_last(
                old(self)@,
                |scope: ScopeView<'a>|
                    ScopeView { templates: scope.templates.push(template), ..scope },
            ),
    {
        let mut scope = self.scopes.pop().unwrap();
        scope.templates.push(template);
        proof {
            let rest = self.scopes@;
            assert(scopes_view(rest.push(scope)) =~= scopes_view(rest).push(scope@));
            assert(scopes_view(rest) =~= old(self)@.drop_last());
        }
        self.scopes.push(scope);
    }

    /// Declares in the innermost scope that `path` stands for the template
    /// of a type `template`.
    pub fn register_path_for_template_ty(
        &mut self,
        path: Vec<Symbol>,
        template: PoolRef<Template<'a>>,
    )
        requires
            old(self)@.len() > 0,
        ensures
            final(self)@ == with_last(
                old(self)@,
                |scope: ScopeView<'a>|
                    ScopeView {
                        path_to_template_ty: scope.path_to_template_ty.push((path@, template)),
                        ..scope
                    },
            ),
    {
        let mut scope = self.scopes.pop().unwrap();
        let entry = (path, template);
        proof {
            assert(paths_view(scope.path_to_template_ty@.push(entry)) =~= paths_view(
                scope.path_to_template_ty@,
            ).push((path@, template)));
        }
        scope.path_to_template_ty.push(entry);
        proof {
            let rest = self.scopes@;
            assert(scopes_view(rest.push(scope)) =~= scopes_view(rest).push(scope@));
            assert(scopes_view(rest) =~= old(self)@.drop_last());
        }
        self.scopes.push(scope);
    }

    /// Declares the function `function` in the innermost scope.
    pub fn register_function(&mut self, function: Function)
        requires
            old(self)@.len() > 0,
        ensures
            final(self)@ == with_last(
                old(self)@,
                |scope: ScopeView<'a>|
                    ScopeView { functions: scope.functions.push(function@), ..scope },
            ),
    {
        let mut scope = self.scopes.pop().unwrap();
        proof {
            assert(functions_view(scope.functions@.push(function)) =~= functions_view(
                scope.functions@,
            ).push(function@));
        }
        scope.functions.push(function);
        proof {
            let rest = self.scopes@;
            assert(scopes_view(rest.push(scope)) =~= scopes_view(rest).push(scope@));
            assert(scopes_view(rest) =~= old(self)@.drop_last());
        }
        self.scopes.push(scope);
    }

    /// The type that `path` stands for.
    pub fn resolve_ty(&self, path: &Vec<Symbol>) -> (r: Option<PoolRef<Ty>>)
        ensures
            r == resolve_ty(self@, path@),
    {
        let mut i: usize = self.scopes.len();
        proof {
            assert(self@.take(i as int) =~= self@);
        }
        while i > 0
            invariant
                i <= self.scopes.len(),
                resolve_ty(self@, path@) == resolve_ty(self@.take(i as int), path@),
            decreases i,
        {
            i = i - 1;
            proof {
                assert(self@.take(i + 1).last() == self.scopes@[i as int]@);
                assert(self@.take(i + 1).drop_last() =~= self@.take(i as int));
            }
            match find(&self.scopes[i].tys, path) {
                Some(ty) => {
                    return Some(ty);
                },
                None => {},
            }
        }
        proof {
            assert(self@.take(self@.len() as int) =~= self@);
        }
        None
    }

    /// The template of a type that `path` stands for.
    pub fn resolve_template_ty(&self, path: &Vec<Symbol>) -> (r: Option<PoolRef<Template<'a>>>)
        ensures
            r == resolve_template_ty(self@, path@),
    {
        let mut i: usize = self.scopes.len();
        proof {
            assert(self@.take(i as int) =~= self@);
        }
        while i > 0
            invariant
                i <= self.scopes.len(),
                resolve_template_ty(self@, path@) == resolve_template_ty(
                    self@.take(i as int),
                    path@,
                ),
            decreases i,
        {
            i = i - 1;
            proof {
                assert(self@.take(i + 1).last() == self.scopes@[i as int]@);
                assert(self@.take(i + 1).drop_last() =~= self@.take(i as int));
            }
            match find(&self.scopes[i].path_to_template_ty, path) {
                Some(template) => {
                    return Some(template);
                },
                None => {},
            }
        }
        proof {
            assert(self@.take(self@.len() as int) =~= self@);
        }
        None
    }
}

} // verus!

verus! {

/// The functions among `functions` with the path `path`, as copies.
fn functions_with_path(functions: &Vec<Function>, path: &Vec<Symbol>, found: &mut Vec<Function>)
    ensures
        functions_view(final(found)@) == functions_view(old(found)@) + functions_at(
            functions_view(functions@),
            path@,
        ),
{
    let ghost all = functions_view(functions@);
    let ghost keep = |function: FunctionView| function.path == path@;
    let mut i: usize = 0;
    proof {
        reveal(Seq::filter);
        assert(all.take(0).filter(keep) =~= Seq::<FunctionView>::empty());
        assert(functions_view(found@) + Seq::<FunctionView>::empty() =~= functions_view(found@));
    }
    while i < functions.len()
        invariant
            i <= functions.len(),
            all == functions_view(functions@),
            keep == |function: FunctionView| function.path == path@,
            functions_view(found@) == functions_view(old(found)@) + all.take(i as int).filter(
                keep,
            ),
        decreases functions.len() - i,
    {
        proof {
            reveal(Seq::filter);
            assert(all.take(i + 1).drop_last() =~= all.take(i as int));
            assert(all.take(i + 1).last() == all[i as int]);
        }
        if same_path(&functions[i].path, path) {
            let function = functions[i].clone();
            proof {
                assert(functions_view(found@.push(function)) =~= functions_view(found@).push(
                    function@,
                ));
            }
            found.push(function);
        }
        i = i + 1;
    }
    proof {
        assert(all.take(functions.len() as int) =~= all);
    }
}

impl<'a> ItemContext<'a> {
    /// The visible functions with the path `path`, those of the innermost
    /// scope first.
    pub fn resolve_function(&self, path: &Vec<Symbol>) -> (r: Vec<Function>)
        ensures
            functions_view(r@) == resolve_function(self@, path@),
    {
        let mut found: Vec<Function> = Vec::new();
        let mut i: usize = self.scopes.len();
        proof {
            assert(self@.take(i as int) =~= self@);
            assert(functions_view(found@) =~= Seq::<FunctionView>::empty());
        }
        while i > 0
            invariant
                i <= self.scopes.len(),
                functions_view(found@) + resolve_function(self@.take(i as int), path@)
                    == resolve_function(self@, path@),
            decreases i,
        {
            i = i - 1;
            let ghost before = functions_view(found@);
            proof {
                assert(self@.take(i + 1).last() == self.scopes@[i as int]@);
                assert(self@.take(i + 1).drop_last() =~= self@.take(i as int));
            }
            functions_with_path(&self.scopes[i].functions, path, &mut found);
            proof {
                let here = functions_at(self.scopes@[i as int]@.functions, path@);
                assert((before + here) + resolve_function(self@.take(i as int), path@) =~= before
                    + (here + resolve_function(self@.take(i as int), path@)));
            }
        }
        proof {
            assert(functions_view(found@) + Seq::<FunctionView>::empty() =~= functions_view(
                found@,
            ));
        }
        found
    }

    /// The types that the scopes bind, those of the outermost scope first:
    /// one for each path that a scope declares.
    pub fn tys_iter(&self) -> (r: Vec<PoolRef<Ty>>)
        ensures
            r@ == declared_tys(self@),
    {
        let mut tys: Vec<PoolRef<Ty>> = Vec::new();
        let mut i: usize = 0;
        proof {
            assert(declared_tys(self@.take(0)) =~= Seq::<PoolRef<Ty>>::empty());
        }
        while i < self.scopes.len()
            invariant
                i <= self.scopes.len(),
                tys@ == declared_tys(self@.take(i as int)),
            decreases self.scopes.len() - i,
        {
            let scope = &self.scopes[i];
            let ghost before = tys@;
            let ghost entries = scope@.tys;
            let mut k: usize = 0;
            proof {
                assert(before + bound_from(entries, 0) =~= before + bound_from(entries, 0));
            }
            while k < scope.tys.len()
                invariant
                    k <= scope.tys.len(),
                    entries == scope@.tys,
                    entries == paths_view(scope.tys@),
                    tys@ + bound_from(entries, k as int) == before + bound_from(entries, 0),
                decreases scope.tys.len() - k,
            {
                let again = declared_behind(&scope.tys, k + 1, &scope.tys[k].0);
                proof {
                    assert(entries[k as int] == (scope.tys@[k as int].0@, scope.tys@[k as int].1));
                    if !again {
                        assert(tys@.push(scope.tys@[k as int].1) + bound_from(entries, k + 1)
                            =~= tys@ + (seq![entries[k as int].1] + bound_from(entries, k + 1)));
                    }
                }
                if !again {
                    tys.push(scope.tys[k].1);
                }
                k = k + 1;
            }
            proof {
                assert(tys@ + Seq::<PoolRef<Ty>>::empty() =~= tys@);
                assert(self@.take(i + 1).last() == scope@);
                assert(self@.take(i + 1).drop_last() =~= self@.take(i as int));
            }
            i = i + 1;
        }
        proof {
            assert(self@.take(self@.len() as int) =~= self@);
        }
        tys
    }
}

/// Whether one of the entries from the index `from` on declares `path`.
fn declared_behind<T: Copy>(entries: &Vec<(Vec<Symbol>, T)>, from: usize, path: &Vec<Symbol>) -> (r:
    bool)
    requires
        from <= entries.len(),
    ensures
        r == declared_from(paths_view(entries@), from as int, path@),
{
    let mut j: usize = from;
    while j < entries.len()
        invariant
            from <= j <= entries.len(),
            declared_from(paths_view(entries@), from as int, path@) == declared_from(
                paths_view(entries@),
                j as int,
                path@,
            ),
        decreases entries.len() - j,
    {
        proof {
            assert(paths_view(entries@)[j as int].0 == entries@[j as int].0@);
        }
        if same_path(&entries[j].0, path) {
            return true;
        }
        j = j + 1;
    }
    false
}

/// The templates of functions with the path `path` among the templates
/// that one scope declares.
pub open spec fn scope_function_templates<'a>(
    declared: Seq<PoolRef<Template<'a>>>,
    templates: Seq<TemplateView<'a>>,
    path: Seq<Symbol>,
) -> Seq<PoolRef<Template<'a>>> {
    declared.filter(
        |template: PoolRef<Template<'a>>|
            template.index < templates.len() && templates[template.index as int].kind
                is Function && templates[template.index as int].path == path,
    )
}

/// The templates of functions with the path `path` that are visible: those
/// of the innermost scope first.
pub open spec fn function_templates<'a>(
    scopes: Seq<ScopeView<'a>>,
    templates: Seq<TemplateView<'a>>,
    path: Seq<Symbol>,
) -> Seq<PoolRef<Template<'a>>>
    decreases scopes.len(),
{
    if scopes.len() == 0 {
        Seq::empty()
    } else {
        scope_function_templates(scopes.last().templates, templates, path) + function_templates(
            scopes.drop_last(),
            templates,
            path,
        )
    }
}

/// The views of templates.
pub open spec fn templates_view<'a>(templates: Seq<Template<'a>>) -> Seq<TemplateView<'a>> {
    templates.map_values(|template: Template<'a>| template@)
}

impl<'a> ItemContext<'a> {
    /// The visible templates of functions with the path `path`, those of
    /// the innermost scope first.
    pub fn function_templates(&self, templates: &Pool<Template<'a>>, path: &Vec<Symbol>) -> (r:
        Vec<PoolRef<Template<'a>>>)
        ensures
            r@ == function_templates(self@, templates_view(templates@), path@),
    {
        let ghost pool = templates_view(templates@);
        let mut found: Vec<PoolRef<Template<'a>>> = Vec::new();
        let mut i: usize = self.scopes.len();
        proof {
            assert(self@.take(i as int) =~= self@);
        }
        while i > 0
            invariant
                i <= self.scopes.len(),
                pool == templates_view(templates@),
                found@ + function_templates(self@.take(i as int), pool, path@)
                    == function_templates(self@, pool, path@),
            decreases i,
        {
            i = i - 1;
            let scope = &self.scopes[i];
            let ghost before = found@;
            let ghost declared = scope@.templates;
            let ghost keep = |template: PoolRef<Template<'a>>|
                template.index < pool.len() && pool[template.index as int].kind is Function
                    && pool[template.index as int].path == path@;
            proof {
                assert(self@.take(i + 1).last() == scope@);
                assert(self@.take(i + 1).drop_last() =~= self@.take(i as int));
                reveal(Seq::filter);
                assert(declared.take(0).filter(keep) =~= Seq::empty());
                assert(before + Seq::empty() =~= before);
            }
            let mut k: usize = 0;
            while k < scope.templates.len()
                invariant
                    k <= scope.templates.len(),
                    declared == scope@.templates,
                    pool == templates_view(templates@),
                    keep == |template: PoolRef<Template<'a>>|
                        template.index < pool.len() && pool[template.index as int].kind
                            is Function && pool[template.index as int].path == path@,
                    found@ == before + declared.take(k as int).filter(keep),
                decreases scope.templates.len() - k,
            {
                let template = scope.templates[k];
                proof {
                    reveal(Seq::filter);
                    assert(declared.take(k + 1).drop_last() =~= declared.take(k as int));
                    assert(declared.take(k + 1).last() == template);
                }
                let fits = match templates.try_get(template) {
                    Some(found) => match found.kind {
                        TemplateKind::Function(_) => same_path(&found.path, path),
                        TemplateKind::Struct(_) => false,
                    },
                    None => false,
                };
                if fits {
                    found.push(template);
                }
                k = k + 1;
            }
            proof {
                assert(declared.take(scope.templates.len() as int) =~= declared);
                let here = scope_function_templates(declared, pool, path@);
                assert((before + here) + function_templates(self@.take(i as int), pool, path@)
                    =~= before + (here + function_templates(self@.take(i as int), pool, path@)));
            }
        }
        proof {
            assert(found@ + Seq::empty() =~= found@);
        }
        found
    }
}

/// The interned strings, their number, and the symbols of the first
/// `count` names of the primitive types, after these names were interned in
/// their order.
pub open spec fn intern_defaults(names: Map<Seq<char>, u64>, interned: nat, count: nat) -> (
    Map<Seq<char>, u64>,
    nat,
    Seq<Symbol>,
)
    decreases count,
{
    if count == 0 || count > default_names().len() {
        (names, interned, Seq::empty())
    } else {
        let (names1, interned1, symbols) = intern_defaults(names, interned, (count - 1) as nat);
        let name = default_names()[count - 1];
        let names2 = crate::globals::interned_names(names1, interned1, name);
        (
            names2,
            crate::globals::interned_count(names1, interned1, name),
            symbols.push(Symbol { index: names2[name] }),
        )
    }
}

/// The declarations of the primitive types: each of the symbols stands
/// for the type with the handle at the same place.
pub open spec fn default_entries(symbols: Seq<Symbol>, handles: Seq<PoolRef<Ty>>) -> Seq<
    (Seq<Symbol>, PoolRef<Ty>),
> {
    Seq::new(symbols.len(), |k: int| (seq![symbols[k]], handles[k]))
}

/// The names of the primitive types.
fn default_name_list() -> (r: Vec<&'static str>)
    ensures
        r@.len() == 11,
        r@.map_values(|name: &'static str| name@) == default_names(),
{
    let mut r: Vec<&'static str> = Vec::new();
    r.push("i8");
    r.push("u8");
    r.push("i16");
    r.push("u16");
    r.push("i32");
    r.push("u32");
    r.push("i64");
    r.push("u64");
    r.push("bool");
    r.push("char");
    r.push("void");
    assert(r@.map_values(|name: &'static str| name@) =~= default_names());
    r
}

/// The handles of the primitive types in the order of their names.
fn default_handle_list(default_tys: &DefaultTys) -> (r: Vec<PoolRef<Ty>>)
    ensures
        r@ == default_tys.handles(),
{
    let mut r: Vec<PoolRef<Ty>> = Vec::new();
    r.push(default_tys.i8);
    r.push(default_tys.u8);
    r.push(default_tys.i16);
    r.push(default_tys.u16);
    r.push(default_tys.i32);
    r.push(default_tys.u32);
    r.push(default_tys.i64);
    r.push(default_tys.u64);
    r.push(default_tys.bool);
    r.push(default_tys.char);
    r.push(default_tys.void);
    assert(r@ =~= default_tys.handles());
    r
}

impl<'a> ItemContext<'a> {
    /// Declares in the innermost scope that the names of the primitive
    /// types stand for the types with the given handles. The names are
    /// interned in their order.
    pub fn register_default_tys(&mut self, default_tys: &DefaultTys, interner: &mut StringInterner)
        requires
            old(self)@.len() > 0,
            old(interner).wf(),
            old(interner).count() + 11 <= u64::MAX,
        ensures
            final(interner).wf(),
            final(interner).names() == intern_defaults(
                old(interner).names(),
                old(interner).count(),
                11,
            ).0,
            final(interner).count() == intern_defaults(
                old(interner).names(),
                old(interner).count(),
                11,
            ).1,
            final(self)@ == with_last(
                old(self)@,
                |scope: ScopeView<'a>|
                    ScopeView {
                        tys: scope.tys + default_entries(
                            intern_defaults(old(interner).names(), old(interner).count(), 11).2,
                            default_tys.handles(),
                        ),
                        ..scope
                    },
            ),
    {
        let names = default_name_list();
        let handles = default_handle_list(default_tys);
        let ghost start_names = interner.names();
        let ghost start_count = interner.count();
        let ghost first = self@.last();
        let ghost rest = self@.drop_last();
        let mut i: usize = 0;
        proof {
            assert(default_entries(Seq::<Symbol>::empty(), default_tys.handles())
                =~= Seq::empty());
            assert(first.tys + Seq::empty() =~= first.tys);
            assert(self@ =~= rest.push(first));
        }
        while i < 11
            invariant
                i <= 11,
                names@.len() == 11,
                names@.map_values(|name: &'static str| name@) == default_names(),
                handles@ == default_tys.handles(),
                interner.wf(),
                interner.count() <= start_count + i,
                start_count + 11 <= u64::MAX,
                start_names == old(interner).names(),
                start_count == old(interner).count(),
                first == old(self)@.last(),
                rest == old(self)@.drop_last(),
                old(self)@.len() > 0,
                interner.names() == intern_defaults(start_names, start_count, i as nat).0,
                interner.count() == intern_defaults(start_names, start_count, i as nat).1,
                intern_defaults(start_names, start_count, i as nat).2.len() == i,
                self@ == rest.push(
                    ScopeView {
                        tys: first.tys + default_entries(
                            intern_defaults(start_names, start_count, i as nat).2,
                            default_tys.handles(),
                        ),
                        ..first
                    },
                ),
            decreases 11 - i,
        {
            let ghost before = intern_defaults(start_names, start_count, i as nat);
            proof {
                assert(((i + 1) as nat - 1) as nat == i as nat);
                assert(names@.map_values(|name: &'static str| name@)[i as int] == names@[i as int]@);
            }
            let symbol = interner.intern(names[i]);
            let mut path: Vec<Symbol> = Vec::new();
            path.push(symbol);
            self.register_ty(&path, handles[i]);
            proof {
                let after = intern_defaults(start_names, start_count, (i + 1) as nat);
                assert(after.2 == before.2.push(symbol));
                assert(path@ =~= seq![symbol]);
                let old_entries = default_entries(before.2, default_tys.handles());
                let new_entries = default_entries(after.2, default_tys.handles());
                assert((first.tys + old_entries).push((path@, handles@[i as int])) =~= first.tys
                    + new_entries);
                let previous = ScopeView { tys: first.tys + old_entries, ..first };
                assert(rest.push(previous).drop_last() =~= rest);
                assert(self@ =~= rest.push(ScopeView { tys: first.tys + new_entries, ..first }));
            }
            i = i + 1;
        }
    }

    /// Adds the primitive types to the pool and declares them under their
    /// names in the innermost scope.
    pub fn create_and_register_default_types(
        &mut self,
        pool: &mut Pool<Ty>,
        interner: &mut StringInterner,
    ) -> (default_tys: DefaultTys)
        requires
            old(self)@.len() > 0,
            old(pool).wf(),
            old(pool)@.len() + 11 <= usize::MAX,
            old(interner).wf(),
            old(interner).count() + 11 <= u64::MAX,
        ensures
            final(pool).wf(),
            crate::solidlang::context::ty::pool_views(final(pool)@)
                == crate::solidlang::context::ty::pool_views(old(pool)@)
                + crate::solidlang::context::ty::default_primitives().map_values(
                |p: crate::solidlang::context::ty::TyPrimitive|
                    crate::solidlang::context::ty::TyView::Primitive(p),
            ),
            forall|i: int|
                0 <= i < 11 ==> (#[trigger] default_tys.handles()[i]).index == old(pool)@.len() + i,
            final(interner).wf(),
            final(interner).names() == intern_defaults(
                old(interner).names(),
                old(interner).count(),
                11,
            ).0,
            final(interner).count() == intern_defaults(
                old(interner).names(),
                old(interner).count(),
                11,
            ).1,
            final(self)@ == with_last(
                old(self)@,
                |scope: ScopeView<'a>|
                    ScopeView {
                        tys: scope.tys + default_entries(
                            intern_defaults(old(interner).names(), old(interner).count(), 11).2,
                            default_tys.handles(),
                        ),
                        ..scope
                    },
            ),
    {
        let default_tys = DefaultTys::create(pool);
        self.register_default_tys(&default_tys, interner);
        default_tys
    }
}

} // verus!
