//! The types of the Solid language.

use crate::globals::Symbol;
use crate::solidlang::context::layout::{
    aligned_fields, compute_layout, layout_align, layout_end, layout_fields, layout_offset,
    layout_offsets,
    layout_size, lemma_layout_field, lemma_layout_invariants, LayoutError,
};
use crate::solidlang::context::function::{copy_tys, tys_view};
use crate::solidlang::context::pool::{Pool, PoolRef};
use vstd::prelude::*;

verus! {

#[derive(Debug, Hash, Clone, Copy, PartialEq, Eq, Structural)]
pub enum TyPrimitive {
    U8,
    I8,
    U16,
    I16,
    U32,
    I32,
    U64,
    I64,
    Bool,
    Char,
    Void,
}

#[derive(Clone, Copy)]
pub struct TyStructField {
    pub offset: usize,
    pub name: Symbol,
    pub ty: PoolRef<Ty>,
}

pub struct TyStruct {
    pub fields: Vec<TyStructField>,
    pub align: usize,
    pub size: usize,
}

pub enum TyKind {
    Primitive(TyPrimitive),
    PointerTo(PoolRef<Ty>),
    Struct(TyStruct),
    /// Stands for a type that is not resolved yet.
    PlaceholderUnknown,
}

pub struct Ty {
    pub kind: TyKind,
}

/// What a [`Ty`] is, with a sequence in place of the vector of fields.
pub enum TyView {
    Primitive(TyPrimitive),
    PointerTo(PoolRef<Ty>),
    Struct { fields: Seq<TyStructField>, align: usize, size: usize },
    PlaceholderUnknown,
}

impl View for Ty {
    type V = TyView;

    open spec fn view(&self) -> TyView {
        match self.kind {
            TyKind::Primitive(primitive) => TyView::Primitive(primitive),
            TyKind::PointerTo(pointee) => TyView::PointerTo(pointee),
            TyKind::Struct(s) => TyView::Struct { fields: s.fields@, align: s.align, size: s.size },
            TyKind::PlaceholderUnknown => TyView::PlaceholderUnknown,
        }
    }
}

/// The views of the types of a pool.
pub open spec fn pool_views(pool: Seq<Ty>) -> Seq<TyView> {
    pool.map_values(|ty: Ty| ty@)
}

/// The size and alignment of a primitive type.
pub open spec fn primitive_size_and_align(primitive: TyPrimitive) -> (nat, nat) {
    match primitive {
        TyPrimitive::U8 => (1, 1),
        TyPrimitive::I8 => (1, 1),
        TyPrimitive::U16 => (2, 2),
        TyPrimitive::I16 => (2, 2),
        TyPrimitive::U32 => (4, 4),
        TyPrimitive::I32 => (4, 4),
        TyPrimitive::U64 => (8, 8),
        TyPrimitive::I64 => (8, 8),
        TyPrimitive::Bool => (1, 1),
        TyPrimitive::Char => (4, 4),
        TyPrimitive::Void => (0, 1),
    }
}

/// The size and alignment of a type. A struct has those that are recorded
/// in it; a pointer has 8 and 8 whatever it points to.
pub open spec fn size_and_align(ty: TyView) -> (nat, nat) {
    match ty {
        TyView::Primitive(primitive) => primitive_size_and_align(primitive),
        TyView::PointerTo(_) => (8, 8),
        TyView::Struct { size, align, .. } => (size as nat, align as nat),
        TyView::PlaceholderUnknown => (0, 0),
    }
}

/// The sizes and alignments of the types of the fields.
pub open spec fn field_sizes(pool: Seq<TyView>, fields: Seq<TyStructField>) -> Seq<(nat, nat)> {
    fields.map_values(|field: TyStructField| size_and_align(pool[field.ty.index as int]))
}

/// Whether the type of some field has no layout: it is still unknown, or a
/// struct whose layout was never computed.
pub open spec fn has_unready_field(pool: Seq<TyView>, fields: Seq<TyStructField>) -> bool {
    exists|k: int|
        0 <= k < fields.len() && size_and_align(pool[(#[trigger] fields[k]).ty.index as int]).1
            == 0
}

/// The struct with the given fields, laid out for the given sizes and
/// alignments of their types.
pub open spec fn laid_out(fields: Seq<TyStructField>, sizes: Seq<(nat, nat)>) -> TyView {
    TyView::Struct {
        fields: Seq::new(
            fields.len(),
            |k: int| TyStructField { offset: layout_offset(sizes, k) as usize, ..fields[k] },
        ),
        align: layout_align(sizes) as usize,
        size: layout_size(sizes) as usize,
    }
}

/// The pool after the layout of the type at `index` was computed: first
/// those of the types of its fields, in their order, then its own. Types
/// other than structs stay as they are. The nesting of structs is followed
/// `fuel` levels deep.
pub open spec fn relayout(pool: Seq<TyView>, index: int, fuel: nat) -> Result<
    Seq<TyView>,
    LayoutError,
>
    decreases fuel, 0nat, 0nat,
{
    match pool[index] {
        TyView::Struct { fields, .. } => if !(0 <= index < pool.len()) {
            Ok(pool)
        } else if fuel == 0 {
            Err(LayoutError::Cyclic)
        } else {
            match relayout_fields(pool, fields, (fuel - 1) as nat) {
                Err(e) => Err(e),
                Ok(inner) => if has_unready_field(inner, fields) {
                    Err(LayoutError::Unresolved)
                } else if layout_size(field_sizes(inner, fields)) > usize::MAX {
                    Err(LayoutError::TooLarge)
                } else {
                    Ok(inner.update(index, laid_out(fields, field_sizes(inner, fields))))
                },
            }
        },
        _ => Ok(pool),
    }
}

/// The pool after the layouts of the types of `fields` were computed, one
/// after the other. A field whose type is not in the pool is unresolved.
pub open spec fn relayout_fields(pool: Seq<TyView>, fields: Seq<TyStructField>, fuel: nat)
    -> Result<Seq<TyView>, LayoutError>
    decreases fuel, 1nat, fields.len(),
{
    if fields.len() == 0 {
        Ok(pool)
    } else {
        match relayout_fields(pool, fields.drop_last(), fuel) {
            Err(e) => Err(e),
            Ok(inner) => if fields.last().ty.index < inner.len() {
                relayout(inner, fields.last().ty.index as int, fuel)
            } else {
                Err(LayoutError::Unresolved)
            },
        }
    }
}

/// The struct that a computed layout leaves at `index`, with the sizes and
/// alignments of the types of its fields from which it was computed.
pub open spec fn relayout_sizes(pool: Seq<TyView>, index: int, fuel: nat) -> Seq<(nat, nat)> {
    let fields = pool[index]->fields;
    field_sizes(relayout_fields(pool, fields, (fuel - 1) as nat)->Ok_0, fields)
}

/// A computed layout keeps to the rules for the struct as a whole: the
/// fields keep their names and types, the size is a multiple of the
/// alignment, and the alignment is at least 1.
pub proof fn lemma_relayout_struct(pool: Seq<TyView>, index: int, fuel: nat)
    requires
        0 <= index < pool.len(),
        pool[index] is Struct,
        relayout(pool, index, fuel) is Ok,
    ensures
        ({
            let out = relayout(pool, index, fuel)->Ok_0;
            let sizes = relayout_sizes(pool, index, fuel);
            &&& out[index] == laid_out(pool[index]->fields, sizes)
            &&& aligned_fields(sizes)
            &&& out[index]->align >= 1
            &&& out[index]->align == layout_align(sizes)
            &&& out[index]->size == layout_size(sizes)
            &&& out[index]->size as nat % out[index]->align as nat == 0
            &&& out[index]->fields.len() == pool[index]->fields.len()
        }),
{
    let fields = pool[index]->fields;
    let inner = relayout_fields(pool, fields, (fuel - 1) as nat)->Ok_0;
    let sizes = field_sizes(inner, fields);
    lemma_relayout_fields_len(pool, fields, (fuel - 1) as nat);
    assert forall|k: int| 0 <= k < sizes.len() implies 1 <= (#[trigger] sizes[k]).1
        <= usize::MAX by {
        assert(size_and_align(inner[fields[k].ty.index as int]).1 != 0);
    }
    lemma_layout_invariants(sizes);
    crate::solidlang::context::layout::lemma_layout_align(sizes);
}

/// A computed layout keeps to the rules for each field `k`: it keeps its
/// name and type, lies at a multiple of the alignment of its type, which is
/// not above that of the struct, and ends within the struct; the first
/// field lies at 0, and every other behind the one before it, as close to
/// it as its alignment allows.
pub proof fn lemma_relayout_field(pool: Seq<TyView>, index: int, fuel: nat, k: int)
    requires
        0 <= index < pool.len(),
        pool[index] is Struct,
        relayout(pool, index, fuel) is Ok,
        0 <= k < pool[index]->fields.len(),
    ensures
        ({
            let out = relayout(pool, index, fuel)->Ok_0;
            let fields = pool[index]->fields;
            let placed = out[index]->fields;
            let sizes = relayout_sizes(pool, index, fuel);
            &&& placed[k].name == fields[k].name
            &&& placed[k].ty == fields[k].ty
            &&& sizes[k].1 >= 1
            &&& placed[k].offset as nat % sizes[k].1 == 0
            &&& placed[k].offset + sizes[k].0 <= out[index]->size
            &&& sizes[k].1 <= out[index]->align
            &&& k == 0 ==> placed[k].offset == 0
            &&& k > 0 ==> placed[k - 1].offset + sizes[k - 1].0 <= placed[k].offset < placed[k
                - 1].offset + sizes[k - 1].0 + sizes[k].1
        }),
{
    lemma_relayout_struct(pool, index, fuel);
    lemma_relayout_len(pool, index, fuel);
    let out = relayout(pool, index, fuel)->Ok_0;
    let fields = pool[index]->fields;
    let sizes = relayout_sizes(pool, index, fuel);
    let placed = laid_out(fields, sizes)->fields;
    assert(out[index]->fields == placed);
    lemma_layout_field(sizes, k);
    lemma_layout_invariants(sizes);
    assert(layout_size(sizes) <= usize::MAX);
    assert(placed[k].offset == layout_offset(sizes, k));
    assert(out[index]->size == layout_size(sizes));
    assert(out[index]->align == layout_align(sizes));
    assert(placed[k].name == fields[k].name && placed[k].ty == fields[k].ty);
    assert(sizes[k].1 >= 1);
    assert(placed[k].offset as nat % sizes[k].1 == 0);
    assert(placed[k].offset + sizes[k].0 <= out[index]->size);
    assert(sizes[k].1 <= out[index]->align);
    if k > 0 {
        lemma_layout_field(sizes, k - 1);
        assert(sizes.take(k - 1 + 1) =~= sizes.take(k));
        assert(placed[k - 1].offset == layout_offset(sizes, k - 1));
        assert(layout_end(sizes.take(k)) == placed[k - 1].offset + sizes[k - 1].0);
        assert(placed[k - 1].offset + sizes[k - 1].0 <= placed[k].offset < placed[k - 1].offset
            + sizes[k - 1].0 + sizes[k].1);
    } else {
        assert(sizes.take(0).len() == 0);
        assert(layout_end(sizes.take(0)) == 0);
        vstd::arithmetic::div_mod::lemma_small_mod(0, sizes[k].1);
        assert(placed[k].offset == 0);
    }
}

/// Whether the fields have the same types in the same order.
pub open spec fn same_types(first: Seq<TyStructField>, second: Seq<TyStructField>) -> bool {
    &&& first.len() == second.len()
    &&& forall|k: int| 0 <= k < first.len() ==> (#[trigger] first[k]).ty == second[k].ty
}

/// Computing the layouts of the types of fields depends on these types
/// alone.
pub proof fn lemma_relayout_fields_by_types(
    pool: Seq<TyView>,
    first: Seq<TyStructField>,
    second: Seq<TyStructField>,
    fuel: nat,
)
    requires
        same_types(first, second),
    ensures
        relayout_fields(pool, first, fuel) == relayout_fields(pool, second, fuel),
    decreases first.len(),
{
    if first.len() > 0 {
        assert(same_types(first.drop_last(), second.drop_last())) by {
            assert forall|k: int| 0 <= k < first.drop_last().len() implies (
            #[trigger] first.drop_last()[k]).ty == second.drop_last()[k].ty by {
                assert(first[k].ty == second[k].ty);
            }
        }
        lemma_relayout_fields_by_types(pool, first.drop_last(), second.drop_last(), fuel);
        assert(first[first.len() - 1].ty == second[first.len() - 1].ty);
    }
}

/// The layout of a struct does not depend on the names of its fields: two
/// structs of a pool whose fields have the same types in the same order get
/// the same size, the same alignment and the same offsets, and each keeps
/// the names of its own fields.
pub proof fn lemma_relayout_ignores_names(pool: Seq<TyView>, a: int, b: int, fuel: nat)
    requires
        0 <= a < pool.len(),
        0 <= b < pool.len(),
        pool[a] is Struct,
        pool[b] is Struct,
        same_types(pool[a]->fields, pool[b]->fields),
        relayout(pool, a, fuel) is Ok,
    ensures
        relayout(pool, b, fuel) is Ok,
        ({
            let first = relayout(pool, a, fuel)->Ok_0[a];
            let second = relayout(pool, b, fuel)->Ok_0[b];
            &&& first->size == second->size
            &&& first->align == second->align
            &&& first->fields.len() == second->fields.len()
            &&& forall|k: int|
                0 <= k < first->fields.len() ==> {
                    &&& (#[trigger] first->fields[k]).offset == second->fields[k].offset
                    &&& first->fields[k].name == pool[a]->fields[k].name
                    &&& second->fields[k].name == pool[b]->fields[k].name
                }
        }),
{
    let fa = pool[a]->fields;
    let fb = pool[b]->fields;
    lemma_relayout_fields_by_types(pool, fa, fb, (fuel - 1) as nat);
    lemma_relayout_fields_len(pool, fa, (fuel - 1) as nat);
    let inner = relayout_fields(pool, fa, (fuel - 1) as nat)->Ok_0;
    assert(field_sizes(inner, fa) =~= field_sizes(inner, fb)) by {
        assert forall|k: int| 0 <= k < fa.len() implies field_sizes(inner, fa)[k] == field_sizes(
            inner,
            fb,
        )[k] by {
            assert(fa[k].ty == fb[k].ty);
        }
    }
    if has_unready_field(inner, fb) {
        let k = choose|k: int|
            0 <= k < fb.len() && size_and_align(inner[(#[trigger] fb[k]).ty.index as int]).1 == 0;
        assert(fa[k].ty == fb[k].ty);
        assert(size_and_align(inner[fa[k].ty.index as int]).1 == 0);
        assert(has_unready_field(inner, fa));
    }
}

/// Computing layouts keeps the number of types.
pub proof fn lemma_relayout_len(pool: Seq<TyView>, index: int, fuel: nat)
    ensures
        relayout(pool, index, fuel) matches Ok(out) ==> out.len() == pool.len(),
    decreases fuel, 0nat, 0nat,
{
    if pool[index] is Struct && 0 <= index < pool.len() && fuel > 0 {
        lemma_relayout_fields_len(pool, pool[index]->fields, (fuel - 1) as nat);
    }
}

pub proof fn lemma_relayout_fields_len(pool: Seq<TyView>, fields: Seq<TyStructField>, fuel: nat)
    ensures
        relayout_fields(pool, fields, fuel) matches Ok(out) ==> out.len() == pool.len(),
    decreases fuel, 1nat, fields.len(),
{
    if fields.len() > 0 {
        lemma_relayout_fields_len(pool, fields.drop_last(), fuel);
        if let Ok(inner) = relayout_fields(pool, fields.drop_last(), fuel) {
            lemma_relayout_len(inner, fields.last().ty.index as int, fuel);
        }
    }
}

} // verus!

verus! {

impl TyStructField {
    /// Whether the two fields agree in offset, name and type.
    pub fn equals(&self, other: &TyStructField) -> (r: bool)
        ensures
            r == (*self == *other),
    {
        self.offset == other.offset && self.name == other.name && self.ty.same(&other.ty)
    }
}

/// A copy of the fields.
fn copy_fields(fields: &Vec<TyStructField>) -> (r: Vec<TyStructField>)
    ensures
        r@ == fields@,
{
    let mut r: Vec<TyStructField> = Vec::new();
    let mut i: usize = 0;
    while i < fields.len()
        invariant
            i <= fields.len(),
            r@ == fields@.take(i as int),
        decreases fields.len() - i,
    {
        r.push(fields[i]);
        i = i + 1;
        assert(fields@.take(i as int) =~= fields@.take(i - 1).push(fields@[i - 1]));
    }
    assert(fields@.take(fields.len() as int) =~= fields@);
    r
}

impl Clone for Ty {
    fn clone(&self) -> (r: Self)
        ensures
            r@ == self@,
    {
        match &self.kind {
            TyKind::Primitive(primitive) => Ty { kind: TyKind::Primitive(*primitive) },
            TyKind::PointerTo(pointee) => Ty { kind: TyKind::PointerTo(*pointee) },
            TyKind::Struct(s) => Ty {
                kind: TyKind::Struct(
                    TyStruct { fields: copy_fields(&s.fields), align: s.align, size: s.size },
                ),
            },
            TyKind::PlaceholderUnknown => Ty { kind: TyKind::PlaceholderUnknown },
        }
    }
}

impl Ty {
    /// Whether the two types are the same: the same primitive, pointers to
    /// the same type, or structs with the same fields, size and alignment.
    #[verifier::loop_isolation(false)]
    pub fn equals(&self, other: &Ty) -> (r: bool)
        ensures
            r == (self@ == other@),
    {
        match (&self.kind, &other.kind) {
            (TyKind::Primitive(a), TyKind::Primitive(b)) => *a == *b,
            (TyKind::PointerTo(a), TyKind::PointerTo(b)) => a.same(b),
            (TyKind::Struct(a), TyKind::Struct(b)) => {
                if a.align != b.align || a.size != b.size || a.fields.len() != b.fields.len() {
                    return false;
                }
                let mut i: usize = 0;
                while i < a.fields.len()
                    invariant
                        i <= a.fields.len(),
                        a.fields.len() == b.fields.len(),
                        a.fields@.take(i as int) == b.fields@.take(i as int),
                    decreases a.fields.len() - i,
                {
                    if !a.fields[i].equals(&b.fields[i]) {
                        assert(a.fields@[i as int] != b.fields@[i as int]);
                        return false;
                    }
                    i = i + 1;
                    assert(a.fields@.take(i as int) =~= a.fields@.take(i - 1).push(
                        a.fields@[i - 1],
                    ));
                    assert(b.fields@.take(i as int) =~= b.fields@.take(i - 1).push(
                        b.fields@[i - 1],
                    ));
                }
                assert(a.fields@.take(a.fields.len() as int) =~= a.fields@);
                assert(b.fields@.take(b.fields.len() as int) =~= b.fields@);
                true
            },
            (TyKind::PlaceholderUnknown, TyKind::PlaceholderUnknown) => true,
            _ => false,
        }
    }

    /// The size and alignment of the type. For a struct these are the
    /// recorded ones, which are right once its layout was computed.
    pub fn get_size_and_align(&self) -> (r: (usize, usize))
        requires
            !(self@ is PlaceholderUnknown),
        ensures
            (r.0 as nat, r.1 as nat) == size_and_align(self@),
    {
        match &self.kind {
            TyKind::Primitive(primitive) => match primitive {
                TyPrimitive::U8 => (1, 1),
                TyPrimitive::I8 => (1, 1),
                TyPrimitive::U16 => (2, 2),
                TyPrimitive::I16 => (2, 2),
                TyPrimitive::U32 => (4, 4),
                TyPrimitive::I32 => (4, 4),
                TyPrimitive::U64 => (8, 8),
                TyPrimitive::I64 => (8, 8),
                TyPrimitive::Bool => (1, 1),
                TyPrimitive::Char => (4, 4),
                TyPrimitive::Void => (0, 1),
            },
            TyKind::PointerTo(_) => (8, 8),
            TyKind::Struct(s) => (s.size, s.align),
            TyKind::PlaceholderUnknown => (0, 0),
        }
    }

    /// The size and alignment of the type, or the error for a placeholder,
    /// which has none as long as it is not resolved.
    pub fn try_get_size_and_align(&self) -> (r: Result<(usize, usize), LayoutError>)
        ensures
            match r {
                Ok(pair) => !(self@ is PlaceholderUnknown) && (pair.0 as nat, pair.1 as nat)
                    == size_and_align(self@),
                Err(e) => self@ is PlaceholderUnknown && e == LayoutError::Unresolved,
            },
    {
        if self.is_placeholder() {
            Err(LayoutError::Unresolved)
        } else {
            Ok(self.get_size_and_align())
        }
    }

    pub fn from_primitive(primitive: TyPrimitive) -> (r: Self)
        ensures
            r@ == TyView::Primitive(primitive),
    {
        Self { kind: TyKind::Primitive(primitive) }
    }

    pub fn placeholder_unknown() -> (r: Self)
        ensures
            r@ == TyView::PlaceholderUnknown,
    {
        Self { kind: TyKind::PlaceholderUnknown }
    }

    /// Whether the type is still unknown.
    pub fn is_placeholder(&self) -> (r: bool)
        ensures
            r == (self@ is PlaceholderUnknown),
    {
        match &self.kind {
            TyKind::PlaceholderUnknown => true,
            _ => false,
        }
    }

    /// Computes the layout of the struct that `pool_ref` names, after those
    /// of the structs that lie in it: the offsets of the fields, the size and
    /// the alignment. A type that is no struct is left as it is. The nesting
    /// of structs is followed as deep as the pool has types, so that a struct
    /// that lies in itself is found out. Where a layout cannot be computed,
    /// the pool is left as it was.
    pub fn struct_recompute_offsets_size_and_align_recursive(
        pool: &mut Pool<Ty>,
        pool_ref: PoolRef<Ty>,
    ) -> (r: Result<(), LayoutError>)
        requires
            old(pool).has(pool_ref),
        ensures
            match r {
                Ok(()) => relayout(
                    pool_views(old(pool)@),
                    pool_ref.index as int,
                    old(pool)@.len(),
                ) == Ok::<Seq<TyView>, LayoutError>(pool_views(final(pool)@)),
                Err(e) => relayout(
                    pool_views(old(pool)@),
                    pool_ref.index as int,
                    old(pool)@.len(),
                ) == Err::<Seq<TyView>, LayoutError>(e),
            },
            r is Err ==> pool_views(final(pool)@) == pool_views(old(pool)@),
            final(pool)@.len() == old(pool)@.len(),
            final(pool).current_index == old(pool).current_index,
    {
        let fuel = pool.len();
        let saved = copy_tys(pool.iter());
        match Self::recompute(pool, pool_ref.index, fuel) {
            Ok(()) => Ok(()),
            Err(e) => {
                // Nothing of a layout that failed is kept.
                pool.values = saved;
                proof {
                    assert(pool_views(pool@) =~= tys_view(pool@));
                    assert(pool_views(old(pool)@) =~= tys_view(old(pool)@));
                }
                Err(e)
            },
        }
    }

    fn recompute(pool: &mut Pool<Ty>, index: usize, fuel: usize) -> (r: Result<(), LayoutError>)
        requires
            index < old(pool)@.len(),
        ensures
            match r {
                Ok(()) => relayout(pool_views(old(pool)@), index as int, fuel as nat) == Ok::<
                    Seq<TyView>,
                    LayoutError,
                >(pool_views(final(pool)@)),
                Err(e) => relayout(pool_views(old(pool)@), index as int, fuel as nat) == Err::<
                    Seq<TyView>,
                    LayoutError,
                >(e),
            },
            final(pool)@.len() == old(pool)@.len(),
            final(pool).current_index == old(pool).current_index,
        decreases fuel,
    {
        let ghost before = pool_views(pool@);
        let fields = match &pool.values[index].kind {
            TyKind::Struct(s) => copy_fields(&s.fields),
            _ => {
                return Ok(());
            },
        };
        assert(before[index as int]->fields == fields@);
        if fuel == 0 {
            return Err(LayoutError::Cyclic);
        }
        let mut i: usize = 0;
        while i < fields.len()
            invariant
                i <= fields.len(),
                fuel > 0,
                index < before.len(),
                before[index as int] is Struct,
                before[index as int]->fields == fields@,
                before == pool_views(old(pool)@),
                pool@.len() == before.len(),
                pool@.len() == old(pool)@.len(),
                pool.current_index == old(pool).current_index,
                relayout_fields(before, fields@.take(i as int), (fuel - 1) as nat) == Ok::<
                    Seq<TyView>,
                    LayoutError,
                >(pool_views(pool@)),
            decreases fields.len() - i,
        {
            proof {
                assert(fields@.take(i + 1).drop_last() =~= fields@.take(i as int));
                assert(fields@.take(i + 1).last() == fields@[i as int]);
            }
            if fields[i].ty.index >= pool.len() {
                proof {
                    assert(relayout_fields(before, fields@.take(i + 1), (fuel - 1) as nat)
                        == Err::<Seq<TyView>, LayoutError>(LayoutError::Unresolved));
                    lemma_relayout_fields_error(before, fields@, (fuel - 1) as nat, i + 1);
                }
                return Err(LayoutError::Unresolved);
            }
            match Self::recompute(pool, fields[i].ty.index, fuel - 1) {
                Ok(()) => {},
                Err(e) => {
                    proof {
                        assert(relayout_fields(before, fields@.take(i + 1), (fuel - 1) as nat)
                            == Err::<Seq<TyView>, LayoutError>(e));
                        lemma_relayout_fields_error(
                            before,
                            fields@,
                            (fuel - 1) as nat,
                            i + 1,
                        );
                    }
                    return Err(e);
                },
            }
            i = i + 1;
        }
        proof {
            assert(fields@.take(fields.len() as int) =~= fields@);
        }
        let ghost inner = pool_views(pool@);
        let ghost sizes_spec = field_sizes(inner, fields@);
        let mut sizes: Vec<(usize, usize)> = Vec::new();
        let mut k: usize = 0;
        while k < fields.len()
            invariant
                k <= fields.len(),
                inner == pool_views(pool@),
                pool@.len() == before.len(),
                pool@.len() == old(pool)@.len(),
                pool.current_index == old(pool).current_index,
                before == pool_views(old(pool)@),
                fuel > 0,
                relayout_fields(before, fields@, (fuel - 1) as nat) == Ok::<
                    Seq<TyView>,
                    LayoutError,
                >(inner),
                index < before.len(),
                before[index as int] is Struct,
                before[index as int]->fields == fields@,
                sizes_spec == field_sizes(inner, fields@),
                sizes.len() == k,
                forall|j: int|
                    0 <= j < k ==> (sizes@[j].0 as nat, sizes@[j].1 as nat) == #[trigger] sizes_spec[j]
                        && sizes@[j].1 >= 1,
            decreases fields.len() - k,
        {
            if fields[k].ty.index >= pool.len() {
                proof {
                    lemma_relayout_fields_in_pool(
                        before,
                        fields@,
                        (fuel - 1) as nat,
                        k as int,
                    );
                }
                return Err(LayoutError::Unresolved);
            }
            let ty = &pool.values[fields[k].ty.index];
            assert(ty@ == inner[fields@[k as int].ty.index as int]);
            if ty.is_placeholder() {
                assert(has_unready_field(inner, fields@)) by {
                    assert(size_and_align(inner[fields@[k as int].ty.index as int]).1 == 0);
                }
                return Err(LayoutError::Unresolved);
            }
            let (size, align) = ty.get_size_and_align();
            if align == 0 {
                assert(has_unready_field(inner, fields@)) by {
                    assert(size_and_align(inner[fields@[k as int].ty.index as int]).1 == 0);
                }
                return Err(LayoutError::Unresolved);
            }
            sizes.push((size, align));
            k = k + 1;
        }
        proof {
            assert(layout_fields(sizes@) =~= sizes_spec);
            assert(!has_unready_field(inner, fields@)) by {
                if has_unready_field(inner, fields@) {
                    let k = choose|k: int|
                        0 <= k < fields@.len() && size_and_align(
                            inner[(#[trigger] fields@[k]).ty.index as int],
                        ).1 == 0;
                    assert(sizes_spec[k].1 >= 1);
                }
            }
        }
        let (offsets, size, align) = match compute_layout(&sizes) {
            Ok(layout) => layout,
            Err(e) => {
                return Err(e);
            },
        };
        proof {
            assert(offsets@.map_values(|o: usize| o as nat).len() == layout_offsets(
                sizes_spec,
            ).len());
        }
        let mut placed: Vec<TyStructField> = Vec::new();
        let mut p: usize = 0;
        while p < fields.len()
            invariant
                p <= fields.len(),
                offsets.len() == fields.len(),
                placed.len() == p,
                forall|j: int|
                    0 <= j < p ==> #[trigger] placed@[j] == (TyStructField {
                        offset: offsets@[j],
                        ..fields@[j]
                    }),
            decreases fields.len() - p,
        {
            placed.push(TyStructField { offset: offsets[p], name: fields[p].name, ty: fields[p].ty });
            p = p + 1;
        }
        let ty = Ty { kind: TyKind::Struct(TyStruct { fields: placed, align, size }) };
        proof {
            let target = laid_out(fields@, sizes_spec);
            assert(ty@->fields =~= target->fields) by {
                assert forall|j: int| 0 <= j < fields@.len() implies ty@->fields[j]
                    == target->fields[j] by {
                    assert(offsets@.map_values(|o: usize| o as nat)[j] == layout_offset(
                        sizes_spec,
                        j,
                    ));
                }
            }
            assert(ty@ == target);
        }
        pool.values.set(index, ty);
        proof {
            assert(pool_views(pool@) =~= inner.update(index as int, laid_out(fields@, sizes_spec)));
        }
        Ok(())
    }
}

/// Where the layouts of the types of all fields were computed, the types
/// of all fields are in the pool.
proof fn lemma_relayout_fields_in_pool(
    pool: Seq<TyView>,
    fields: Seq<TyStructField>,
    fuel: nat,
    k: int,
)
    requires
        0 <= k < fields.len(),
        relayout_fields(pool, fields, fuel) is Ok,
    ensures
        fields[k].ty.index < pool.len(),
    decreases fields.len(),
{
    lemma_relayout_fields_len(pool, fields.drop_last(), fuel);
    if k < fields.len() - 1 {
        lemma_relayout_fields_in_pool(pool, fields.drop_last(), fuel, k);
    }
}

proof fn lemma_relayout_fields_error(
    pool: Seq<TyView>,
    fields: Seq<TyStructField>,
    fuel: nat,
    i: int,
)
    requires
        0 <= i <= fields.len(),
        relayout_fields(pool, fields.take(i), fuel) is Err,
    ensures
        relayout_fields(pool, fields, fuel) == relayout_fields(pool, fields.take(i), fuel),
    decreases fields.len() - i,
{
    if i < fields.len() {
        assert(fields.take(i + 1).drop_last() =~= fields.take(i));
        lemma_relayout_fields_error(pool, fields, fuel, i + 1);
    } else {
        assert(fields.take(i) =~= fields);
    }
}

/// The handles of the primitive types.
pub struct DefaultTys {
    pub i8: PoolRef<Ty>,
    pub u8: PoolRef<Ty>,
    pub i16: PoolRef<Ty>,
    pub u16: PoolRef<Ty>,
    pub i32: PoolRef<Ty>,
    pub u32: PoolRef<Ty>,
    pub i64: PoolRef<Ty>,
    pub u64: PoolRef<Ty>,
    pub bool: PoolRef<Ty>,
    pub char: PoolRef<Ty>,
    pub void: PoolRef<Ty>,
}

/// The primitive types in the order in which [`DefaultTys::create`] adds
/// them to a pool.
pub open spec fn default_primitives() -> Seq<TyPrimitive> {
    seq![
        TyPrimitive::I8,
        TyPrimitive::U8,
        TyPrimitive::I16,
        TyPrimitive::U16,
        TyPrimitive::I32,
        TyPrimitive::U32,
        TyPrimitive::I64,
        TyPrimitive::U64,
        TyPrimitive::Bool,
        TyPrimitive::Char,
        TyPrimitive::Void,
    ]
}

impl DefaultTys {
    /// The handles in the order of [`default_primitives`].
    pub open spec fn handles(&self) -> Seq<PoolRef<Ty>> {
        seq![
            self.i8,
            self.u8,
            self.i16,
            self.u16,
            self.i32,
            self.u32,
            self.i64,
            self.u64,
            self.bool,
            self.char,
            self.void,
        ]
    }

    /// Adds the primitive types to the pool and gives their handles.
    pub fn create(pool: &mut Pool<Ty>) -> (r: Self)
        requires
            old(pool).wf(),
            old(pool)@.len() + 11 <= usize::MAX,
        ensures
            final(pool).wf(),
            pool_views(final(pool)@) == pool_views(old(pool)@) + default_primitives().map_values(
                |p: TyPrimitive| TyView::Primitive(p),
            ),
            forall|i: int| 0 <= i < 11 ==> (#[trigger] r.handles()[i]).index == old(pool)@.len() + i,
    {
        let r = DefaultTys {
            i8: pool.add(Ty::from_primitive(TyPrimitive::I8)),
            u8: pool.add(Ty::from_primitive(TyPrimitive::U8)),
            i16: pool.add(Ty::from_primitive(TyPrimitive::I16)),
            u16: pool.add(Ty::from_primitive(TyPrimitive::U16)),
            i32: pool.add(Ty::from_primitive(TyPrimitive::I32)),
            u32: pool.add(Ty::from_primitive(TyPrimitive::U32)),
            i64: pool.add(Ty::from_primitive(TyPrimitive::I64)),
            u64: pool.add(Ty::from_primitive(TyPrimitive::U64)),
            bool: pool.add(Ty::from_primitive(TyPrimitive::Bool)),
            char: pool.add(Ty::from_primitive(TyPrimitive::Char)),
            void: pool.add(Ty::from_primitive(TyPrimitive::Void)),
        };
        assert(pool_views(pool@) =~= pool_views(old(pool)@) + default_primitives().map_values(
            |p: TyPrimitive| TyView::Primitive(p),
        ));
        r
    }
}

} // verus!
