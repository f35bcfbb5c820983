use solidc::globals::{StringInterner, Symbol};
use solidc::solidlang::context::item::ItemContext;
use solidc::solidlang::context::layout::{compute_layout, LayoutError};
use solidc::solidlang::context::pool::{Pool, PoolRef};
use solidc::solidlang::context::ty::{Ty, TyKind, TyPrimitive, TyStruct, TyStructField};

fn primitive(pool: &mut Pool<Ty>, primitive: TyPrimitive) -> PoolRef<Ty> {
    pool.add(Ty::from_primitive(primitive))
}

fn structure(pool: &mut Pool<Ty>, fields: &[(u64, PoolRef<Ty>)]) -> PoolRef<Ty> {
    let fields = fields
        .iter()
        .map(|(name, ty)| TyStructField { offset: 0, name: Symbol { index: *name }, ty: *ty })
        .collect();
    pool.add(Ty { kind: TyKind::Struct(TyStruct { fields, align: 1, size: 0 }) })
}

fn layout_of(pool: &Pool<Ty>, ty: PoolRef<Ty>) -> (Vec<usize>, usize, usize) {
    match &pool.get(ty).kind {
        TyKind::Struct(s) => (s.fields.iter().map(|field| field.offset).collect(), s.size, s.align),
        _ => panic!("no structure"),
    }
}

#[test]
fn layout_of_a_byte_a_word_and_a_byte() {
    assert_eq!(compute_layout(&vec![(1, 1), (4, 4), (1, 1)]), Ok((vec![0, 4, 8], 12, 4)));
}

#[test]
fn layouts_of_fields() {
    assert_eq!(compute_layout(&vec![]), Ok((vec![], 0, 1)));
    assert_eq!(compute_layout(&vec![(1, 1)]), Ok((vec![0], 1, 1)));
    assert_eq!(compute_layout(&vec![(2, 2), (2, 2), (2, 2)]), Ok((vec![0, 2, 4], 6, 2)));
    assert_eq!(compute_layout(&vec![(1, 1), (8, 8)]), Ok((vec![0, 8], 16, 8)));
    assert_eq!(compute_layout(&vec![(8, 8), (1, 1)]), Ok((vec![0, 8], 16, 8)));
    assert_eq!(compute_layout(&vec![(0, 1), (4, 4), (0, 1)]), Ok((vec![0, 0, 4], 4, 4)));
    assert_eq!(compute_layout(&vec![(3, 1), (2, 2), (1, 1), (4, 4)]), Ok((vec![0, 4, 6, 8], 12, 4)));
}

#[test]
fn a_layout_that_is_too_large() {
    assert_eq!(compute_layout(&vec![(usize::MAX, 1), (1, 1)]), Err(LayoutError::TooLarge));
    assert_eq!(compute_layout(&vec![(usize::MAX - 2, 1), (1, 4)]), Err(LayoutError::TooLarge));
    assert_eq!(compute_layout(&vec![(usize::MAX, 1)]), Ok((vec![0], usize::MAX, 1)));
}

#[test]
fn layouts_keep_their_promises() {
    let cases: Vec<Vec<(usize, usize)>> = vec![
        vec![(1, 1), (4, 4), (1, 1)],
        vec![(1, 1), (2, 2), (4, 4), (8, 8)],
        vec![(8, 8), (4, 4), (2, 2), (1, 1)],
        vec![(12, 4), (1, 1), (16, 8), (3, 1)],
        vec![(0, 1), (0, 1)],
    ];
    for fields in cases {
        let (offsets, size, align) = compute_layout(&fields).unwrap();
        assert_eq!(size % align, 0);
        assert_eq!(offsets.len(), fields.len());
        for (i, (field_size, field_align)) in fields.iter().enumerate() {
            assert_eq!(offsets[i] % field_align, 0);
            assert!(offsets[i] + field_size <= size);
            assert!(*field_align <= align);
            if i > 0 {
                assert!(offsets[i - 1] + fields[i - 1].0 <= offsets[i]);
            }
        }
    }
}

#[test]
fn sizes_of_the_primitives() {
    let size = |primitive| Ty::from_primitive(primitive).get_size_and_align();
    assert_eq!(size(TyPrimitive::U8), (1, 1));
    assert_eq!(size(TyPrimitive::I8), (1, 1));
    assert_eq!(size(TyPrimitive::U16), (2, 2));
    assert_eq!(size(TyPrimitive::I16), (2, 2));
    assert_eq!(size(TyPrimitive::U32), (4, 4));
    assert_eq!(size(TyPrimitive::I32), (4, 4));
    assert_eq!(size(TyPrimitive::U64), (8, 8));
    assert_eq!(size(TyPrimitive::I64), (8, 8));
    assert_eq!(size(TyPrimitive::Bool), (1, 1));
    assert_eq!(size(TyPrimitive::Char), (4, 4));
    assert_eq!(size(TyPrimitive::Void), (0, 1));
    let mut pool: Pool<Ty> = Pool::new();
    let byte = primitive(&mut pool, TyPrimitive::U8);
    assert_eq!(Ty { kind: TyKind::PointerTo(byte) }.get_size_and_align(), (8, 8));
    assert!(Ty::placeholder_unknown().is_placeholder());
    assert!(!Ty::from_primitive(TyPrimitive::Void).is_placeholder());
}

#[test]
fn the_size_of_a_type_is_asked_twice() {
    let mut pool: Pool<Ty> = Pool::new();
    let byte = primitive(&mut pool, TyPrimitive::U8);
    let word = primitive(&mut pool, TyPrimitive::U32);
    let s = structure(&mut pool, &[(0, byte), (1, word), (2, byte)]);
    Ty::struct_recompute_offsets_size_and_align_recursive(&mut pool, s).unwrap();
    let first = pool.get(s).get_size_and_align();
    let second = pool.get(s).get_size_and_align();
    assert_eq!(first, (12, 4));
    assert_eq!(first, second);
    // Computing the layout again changes nothing.
    Ty::struct_recompute_offsets_size_and_align_recursive(&mut pool, s).unwrap();
    assert_eq!(layout_of(&pool, s), (vec![0, 4, 8], 12, 4));
}

#[test]
fn the_layout_does_not_depend_on_the_names() {
    let mut pool: Pool<Ty> = Pool::new();
    let byte = primitive(&mut pool, TyPrimitive::U8);
    let word = primitive(&mut pool, TyPrimitive::U32);
    let one = structure(&mut pool, &[(0, byte), (1, word), (2, byte)]);
    let other = structure(&mut pool, &[(7, byte), (7, word), (3, byte)]);
    Ty::struct_recompute_offsets_size_and_align_recursive(&mut pool, one).unwrap();
    Ty::struct_recompute_offsets_size_and_align_recursive(&mut pool, other).unwrap();
    assert_eq!(layout_of(&pool, one), layout_of(&pool, other));
}

#[test]
fn structures_in_structures() {
    let mut pool: Pool<Ty> = Pool::new();
    let byte = primitive(&mut pool, TyPrimitive::U8);
    let long = primitive(&mut pool, TyPrimitive::U64);
    let pointer = pool.add(Ty { kind: TyKind::PointerTo(byte) });
    let inner = structure(&mut pool, &[(0, byte), (1, long)]);
    let outer = structure(&mut pool, &[(0, byte), (1, inner), (2, pointer), (3, byte)]);
    Ty::struct_recompute_offsets_size_and_align_recursive(&mut pool, outer).unwrap();
    assert_eq!(layout_of(&pool, inner), (vec![0, 8], 16, 8));
    assert_eq!(layout_of(&pool, outer), (vec![0, 8, 24, 32], 40, 8));
    // A type that is no structure is left as it is.
    assert_eq!(Ty::struct_recompute_offsets_size_and_align_recursive(&mut pool, byte), Ok(()));
    assert_eq!(pool.get(byte).get_size_and_align(), (1, 1));
}

#[test]
fn a_structure_that_lies_in_itself() {
    let mut pool: Pool<Ty> = Pool::new();
    let byte = primitive(&mut pool, TyPrimitive::U8);
    let first = structure(&mut pool, &[(0, byte)]);
    let second = structure(&mut pool, &[(0, first)]);
    pool.set(
        first,
        Ty {
            kind: TyKind::Struct(TyStruct {
                fields: vec![TyStructField { offset: 0, name: Symbol { index: 0 }, ty: second }],
                align: 1,
                size: 0,
            }),
        },
    );
    assert_eq!(
        Ty::struct_recompute_offsets_size_and_align_recursive(&mut pool, first),
        Err(LayoutError::Cyclic)
    );
    // Behind a pointer it may.
    let mut pool: Pool<Ty> = Pool::new();
    let placeholder = pool.add(Ty::placeholder_unknown());
    let pointer = pool.add(Ty { kind: TyKind::PointerTo(placeholder) });
    let list = structure(&mut pool, &[(0, pointer)]);
    pool.set(pointer, Ty { kind: TyKind::PointerTo(list) });
    assert_eq!(Ty::struct_recompute_offsets_size_and_align_recursive(&mut pool, list), Ok(()));
    assert_eq!(layout_of(&pool, list), (vec![0], 8, 8));
}

#[test]
fn a_field_of_an_unresolved_type() {
    let mut pool: Pool<Ty> = Pool::new();
    let placeholder = pool.add(Ty::placeholder_unknown());
    let s = structure(&mut pool, &[(0, placeholder)]);
    assert_eq!(
        Ty::struct_recompute_offsets_size_and_align_recursive(&mut pool, s),
        Err(LayoutError::Unresolved)
    );
}

#[test]
fn types_are_compared_by_what_they_are() {
    let mut pool: Pool<Ty> = Pool::new();
    let byte = primitive(&mut pool, TyPrimitive::U8);
    let other = primitive(&mut pool, TyPrimitive::U8);
    assert!(pool.get(byte).equals(pool.get(other)));
    assert!(!Ty::from_primitive(TyPrimitive::U8).equals(&Ty::from_primitive(TyPrimitive::I8)));
    assert!(Ty { kind: TyKind::PointerTo(byte) }.equals(&Ty { kind: TyKind::PointerTo(byte) }));
    assert!(!Ty { kind: TyKind::PointerTo(byte) }.equals(&Ty { kind: TyKind::PointerTo(other) }));
    assert!(byte.same(&byte));
    assert!(!byte.same(&other));
}

#[test]
fn a_pool_hands_out_handles() {
    let mut pool: Pool<u32> = Pool::new();
    assert_eq!(pool.len(), 0);
    let a = pool.add(10);
    let b = pool.add(20);
    assert_eq!((a.index, b.index), (0, 1));
    assert_eq!(pool.len(), 2);
    assert_eq!(*pool.get(a), 10);
    *pool.get_mut(b) += 1;
    assert_eq!(*pool.get(b), 21);
    pool.set(a, 11);
    assert_eq!(pool.iter(), &vec![11, 21]);
    assert_eq!(pool.try_get(b), Some(&21));
    let stranger: Pool<u32> = Pool::new();
    assert_eq!(stranger.try_get(b), None);
    assert_eq!(pool.try_add(30).map(|r| r.index), Some(2));
    assert_eq!(pool.ref_at(1).index, 1);
    for value in pool.iter_mut().iter_mut() {
        *value *= 2;
    }
    assert_eq!(pool.iter(), &vec![22, 42, 60]);
}

#[test]
fn inner_scopes_shadow_outer_ones() {
    let mut interner = StringInterner::new();
    let mut pool: Pool<Ty> = Pool::new();
    let byte = primitive(&mut pool, TyPrimitive::U8);
    let word = primitive(&mut pool, TyPrimitive::U32);
    let name = vec![interner.intern("T")];
    let path = vec![interner.intern("a"), interner.intern("T")];
    let mut context = ItemContext::new();
    assert_eq!(context.depth(), 0);
    assert!(context.resolve_ty(&name).is_none());
    context.start_scope();
    context.register_ty(&name, byte);
    context.register_ty(&path, word);
    assert_eq!(context.resolve_ty(&name).map(|r| r.index), Some(byte.index));
    assert_eq!(context.resolve_ty(&path).map(|r| r.index), Some(word.index));
    context.start_scope();
    assert_eq!(context.depth(), 2);
    context.register_ty(&name, word);
    assert_eq!(context.resolve_ty(&name).map(|r| r.index), Some(word.index));
    let saved = context.save_scopes();
    context.close_scope();
    assert_eq!(context.resolve_ty(&name).map(|r| r.index), Some(byte.index));
    // What was saved is looked up as it was.
    let current = context.swap_scopes(saved);
    assert_eq!(context.resolve_ty(&name).map(|r| r.index), Some(word.index));
    context.swap_scopes(current);
    assert_eq!(context.resolve_ty(&name).map(|r| r.index), Some(byte.index));
    context.close_scope();
    context.close_scope();
    assert_eq!(context.depth(), 0);
}

#[test]
fn the_default_types_have_their_names() {
    let mut interner = StringInterner::new();
    let mut pool: Pool<Ty> = Pool::new();
    let mut context = ItemContext::new();
    context.start_scope();
    context.create_and_register_default_types(&mut pool, &mut interner);
    assert_eq!(pool.len(), 11);
    let size_of = |name: &str, interner: &mut StringInterner| {
        let path = vec![interner.intern(name)];
        pool.get(context.resolve_ty(&path).unwrap()).get_size_and_align()
    };
    assert_eq!(size_of("u8", &mut interner), (1, 1));
    assert_eq!(size_of("i16", &mut interner), (2, 2));
    assert_eq!(size_of("u32", &mut interner), (4, 4));
    assert_eq!(size_of("i64", &mut interner), (8, 8));
    assert_eq!(size_of("bool", &mut interner), (1, 1));
    assert_eq!(size_of("char", &mut interner), (4, 4));
    assert_eq!(size_of("void", &mut interner), (0, 1));
    let unknown = vec![interner.intern("u128")];
    assert!(context.resolve_ty(&unknown).is_none());
}

#[test]
fn a_path_that_is_declared_again_is_bound_once() {
    let mut interner = StringInterner::new();
    let mut pool: Pool<Ty> = Pool::new();
    let byte = primitive(&mut pool, TyPrimitive::U8);
    let word = primitive(&mut pool, TyPrimitive::U32);
    let long = primitive(&mut pool, TyPrimitive::U64);
    let a = vec![interner.intern("a")];
    let b = vec![interner.intern("b")];
    let indices = |context: &ItemContext| -> Vec<usize> {
        context.tys_iter().iter().map(|ty| ty.index).collect()
    };
    let mut context = ItemContext::new();
    assert_eq!(indices(&context), Vec::<usize>::new());
    context.start_scope();
    context.register_ty(&a, byte);
    context.register_ty(&b, long);
    assert_eq!(indices(&context), vec![byte.index, long.index]);
    // The second declaration of a path takes the place of the first.
    context.register_ty(&a, word);
    assert_eq!(context.resolve_ty(&a).map(|r| r.index), Some(word.index));
    assert_eq!(indices(&context), vec![long.index, word.index]);
    // A type that an inner scope shadows is still bound in its scope.
    context.start_scope();
    context.register_ty(&a, byte);
    assert_eq!(indices(&context), vec![long.index, word.index, byte.index]);
    context.close_scope();
    assert_eq!(indices(&context), vec![long.index, word.index]);
}

#[test]
fn a_placeholder_has_no_size() {
    assert_eq!(Ty::placeholder_unknown().try_get_size_and_align(), Err(LayoutError::Unresolved));
    assert_eq!(Ty::from_primitive(TyPrimitive::U16).try_get_size_and_align(), Ok((2, 2)));
}

#[test]
fn a_layout_that_fails_changes_nothing() {
    let mut pool: Pool<Ty> = Pool::new();
    let byte = primitive(&mut pool, TyPrimitive::U8);
    let word = primitive(&mut pool, TyPrimitive::U32);
    let placeholder = pool.add(Ty::placeholder_unknown());
    let inner = structure(&mut pool, &[(0, byte), (1, word)]);
    let outer = structure(&mut pool, &[(0, inner), (1, placeholder)]);
    assert_eq!(
        Ty::struct_recompute_offsets_size_and_align_recursive(&mut pool, outer),
        Err(LayoutError::Unresolved)
    );
    // The layout of the first field was computed on the way, and is not kept.
    assert_eq!(layout_of(&pool, inner), (vec![0, 0], 0, 1));
    assert_eq!(layout_of(&pool, outer), (vec![0, 0], 0, 1));
    pool.set(placeholder, Ty::from_primitive(TyPrimitive::U8));
    assert_eq!(Ty::struct_recompute_offsets_size_and_align_recursive(&mut pool, outer), Ok(()));
    assert_eq!(layout_of(&pool, inner), (vec![0, 4], 8, 4));
    assert_eq!(layout_of(&pool, outer), (vec![0, 8], 12, 4));
}
