//! The layout of a struct: where each field lies, and how large and how
//! aligned the whole is.

use vstd::arithmetic::div_mod::{lemma_fundamental_div_mod, lemma_mod_multiples_basic};
use vstd::prelude::*;

verus! {

/// Why a layout could not be computed.
#[derive(Debug, Clone, Copy, PartialEq, Eq, Structural)]
pub enum LayoutError {
    /// The type of a field has no layout: it is still unknown, or it is a
    /// struct whose layout was never computed.
    Unresolved,
    /// The struct holds itself, directly or through other structs, other
    /// than behind a pointer.
    Cyclic,
    /// The struct is larger than the machine can address.
    TooLarge,
}

/// The smallest multiple of `align` that is not below `offset`.
pub open spec fn align_up(offset: nat, align: nat) -> nat {
    if align == 0 || offset % align == 0 {
        offset
    } else {
        (offset + align - offset % align) as nat
    }
}

/// The offset behind the last of the fields, which are given by their size
/// and alignment in the order of their declaration.
pub open spec fn layout_end(fields: Seq<(nat, nat)>) -> nat
    decreases fields.len(),
{
    if fields.len() == 0 {
        0
    } else {
        align_up(layout_end(fields.drop_last()), fields.last().1) + fields.last().0
    }
}

/// The offset of the field `i`: the first place behind the fields before
/// it that suits its alignment.
pub open spec fn layout_offset(fields: Seq<(nat, nat)>, i: int) -> nat {
    align_up(layout_end(fields.take(i)), fields[i].1)
}

/// The alignment of the struct: the largest of its fields, and at least 1.
pub open spec fn layout_align(fields: Seq<(nat, nat)>) -> nat
    decreases fields.len(),
{
    if fields.len() == 0 {
        1
    } else if fields.last().1 > layout_align(fields.drop_last()) {
        fields.last().1
    } else {
        layout_align(fields.drop_last())
    }
}

/// The size of the struct: the end of its fields, rounded up to its
/// alignment.
pub open spec fn layout_size(fields: Seq<(nat, nat)>) -> nat {
    align_up(layout_end(fields), layout_align(fields))
}

/// The offsets of all fields.
pub open spec fn layout_offsets(fields: Seq<(nat, nat)>) -> Seq<nat> {
    Seq::new(fields.len(), |i: int| layout_offset(fields, i))
}

/// Every field has an alignment of at least 1.
pub open spec fn aligned_fields(fields: Seq<(nat, nat)>) -> bool {
    forall|i: int| 0 <= i < fields.len() ==> (#[trigger] fields[i]).1 >= 1
}

/// Rounding up gives a multiple of the alignment that is less than one
/// alignment above the offset.
pub proof fn lemma_align_up(offset: nat, align: nat)
    requires
        align >= 1,
    ensures
        align_up(offset, align) % align == 0,
        offset <= align_up(offset, align) < offset + align,
{
    let r = offset % align;
    lemma_fundamental_div_mod(offset as int, align as int);
    if r != 0 {
        let q = offset as int / align as int;
        assert(offset + align - r == align * (q + 1)) by (nonlinear_arith)
            requires
                offset == align * q + r,
        ;
        lemma_mod_multiples_basic(q + 1, align as int);
        assert((align * (q + 1)) % (align as int) == 0) by (nonlinear_arith)
            requires
                ((q + 1) * align) % (align as int) == 0,
        ;
    }
}

/// The fields end later the more of them there are.
pub proof fn lemma_layout_end_monotonic(fields: Seq<(nat, nat)>, i: int)
    requires
        0 <= i <= fields.len(),
        aligned_fields(fields),
    ensures
        layout_end(fields.take(i)) <= layout_end(fields),
    decreases fields.len() - i,
{
    if i < fields.len() {
        let next = fields.take(i + 1);
        assert(next.drop_last() =~= fields.take(i));
        assert(next.last() == fields[i]);
        lemma_align_up(layout_end(fields.take(i)), fields[i].1);
        lemma_layout_end_monotonic(fields, i + 1);
    } else {
        assert(fields.take(i) =~= fields);
    }
}

/// The alignment of the struct is that of no field below, and it is 1 or
/// the alignment of one of the fields.
pub proof fn lemma_layout_align(fields: Seq<(nat, nat)>)
    ensures
        layout_align(fields) >= 1,
        forall|i: int| 0 <= i < fields.len() ==> (#[trigger] fields[i]).1 <= layout_align(fields),
        layout_align(fields) == 1 || exists|i: int|
            0 <= i < fields.len() && (#[trigger] fields[i]).1 == layout_align(fields),
    decreases fields.len(),
{
    if fields.len() > 0 {
        let firsts = fields.drop_last();
        lemma_layout_align(firsts);
        assert forall|i: int| 0 <= i < fields.len() implies (#[trigger] fields[i]).1
            <= layout_align(fields) by {
            if i < firsts.len() {
                assert(firsts[i] == fields[i]);
            }
        }
        if fields.last().1 > layout_align(firsts) {
            assert(fields[fields.len() - 1].1 == layout_align(fields));
        } else if layout_align(firsts) != 1 {
            let i = choose|i: int|
                0 <= i < firsts.len() && (#[trigger] firsts[i]).1 == layout_align(firsts);
            assert(fields[i] == firsts[i]);
        }
    }
}

/// The place of the field `i` of a struct whose fields have alignments of
/// at least 1: at a multiple of its own alignment, behind the field before
/// it and as close to it as its alignment allows, and within the size of the
/// struct, whose alignment is not below its own.
pub proof fn lemma_layout_field(fields: Seq<(nat, nat)>, i: int)
    requires
        aligned_fields(fields),
        0 <= i < fields.len(),
    ensures
        layout_offset(fields, i) % fields[i].1 == 0,
        layout_offset(fields, i) + fields[i].0 <= layout_size(fields),
        layout_end(fields.take(i)) <= layout_offset(fields, i) < layout_end(fields.take(i))
            + fields[i].1,
        layout_end(fields.take(i + 1)) == layout_offset(fields, i) + fields[i].0,
        fields[i].1 <= layout_align(fields),
{
    lemma_layout_align(fields);
    lemma_align_up(layout_end(fields), layout_align(fields));
    lemma_align_up(layout_end(fields.take(i)), fields[i].1);
    let next = fields.take(i + 1);
    assert(next.drop_last() =~= fields.take(i));
    assert(next.last() == fields[i]);
    lemma_layout_end_monotonic(fields, i + 1);
}

/// The layout of a struct whose fields have alignments of at least 1: the
/// size is a multiple of the alignment and not below the end of the fields;
/// each field lies at a multiple of its own alignment and within the size;
/// the alignment is at least 1 and at least that of each field.
pub proof fn lemma_layout_invariants(fields: Seq<(nat, nat)>)
    requires
        aligned_fields(fields),
    ensures
        layout_size(fields) % layout_align(fields) == 0,
        layout_end(fields) <= layout_size(fields) < layout_end(fields) + layout_align(fields),
        layout_align(fields) >= 1,
        forall|i: int|
            0 <= i < fields.len() ==> {
                &&& #[trigger] layout_offset(fields, i) % fields[i].1 == 0
                &&& layout_offset(fields, i) + fields[i].0 <= layout_size(fields)
                &&& fields[i].1 <= layout_align(fields)
            },
{
    lemma_layout_align(fields);
    lemma_align_up(layout_end(fields), layout_align(fields));
    assert forall|i: int| 0 <= i < fields.len() implies {
        &&& #[trigger] layout_offset(fields, i) % fields[i].1 == 0
        &&& layout_offset(fields, i) + fields[i].0 <= layout_size(fields)
        &&& fields[i].1 <= layout_align(fields)
    } by {
        lemma_layout_field(fields, i);
    }
}

/// The layout depends on the sizes and alignments of the fields alone: two
/// structs whose fields agree in these have the same layout, whatever the
/// fields are called.
pub proof fn lemma_layout_ignores_names<A, B>(
    first: Seq<A>,
    second: Seq<B>,
    first_layout: spec_fn(A) -> (nat, nat),
    second_layout: spec_fn(B) -> (nat, nat),
)
    requires
        first.len() == second.len(),
        forall|i: int|
            0 <= i < first.len() ==> first_layout(#[trigger] first[i]) == second_layout(second[i]),
    ensures
        layout_offsets(first.map_values(first_layout)) == layout_offsets(
            second.map_values(second_layout),
        ),
        layout_size(first.map_values(first_layout)) == layout_size(
            second.map_values(second_layout),
        ),
        layout_align(first.map_values(first_layout)) == layout_align(
            second.map_values(second_layout),
        ),
{
    assert(first.map_values(first_layout) =~= second.map_values(second_layout));
}

/// The layout of a struct with the given fields, each by its size and
/// alignment: the offsets of the fields, the size and the alignment.
pub fn compute_layout(fields: &Vec<(usize, usize)>) -> (r: Result<
    (Vec<usize>, usize, usize),
    LayoutError,
>)
    requires
        aligned_fields(layout_fields(fields@)),
    ensures
        match r {
            Ok((offsets, size, align)) => {
                &&& offsets@.map_values(|o: usize| o as nat) == layout_offsets(
                    layout_fields(fields@),
                )
                &&& size == layout_size(layout_fields(fields@))
                &&& align == layout_align(layout_fields(fields@))
            },
            Err(e) => e == LayoutError::TooLarge && layout_size(layout_fields(fields@))
                > usize::MAX,
        },
{
    let ghost all = layout_fields(fields@);
    let mut offsets: Vec<usize> = Vec::new();
    let mut end: usize = 0;
    let mut max_align: usize = 1;
    let mut i: usize = 0;
    while i < fields.len()
        invariant
            i <= fields.len(),
            all == layout_fields(fields@),
            aligned_fields(all),
            end == layout_end(all.take(i as int)),
            max_align == layout_align(all.take(i as int)),
            offsets.len() == i,
            forall|j: int| 0 <= j < i ==> offsets@[j] == layout_offset(all, j),
        decreases fields.len() - i,
    {
        let (size, align) = fields[i];
        proof {
            assert(all[i as int] == (size as nat, align as nat));
            let next = all.take(i + 1);
            assert(next.drop_last() =~= all.take(i as int));
            assert(next.last() == all[i as int]);
            lemma_align_up(end as nat, align as nat);
            lemma_layout_end_monotonic(all, i + 1);
            lemma_layout_invariants(all);
            lemma_layout_field(all, i as int);
        }
        if align > max_align {
            max_align = align;
        }
        let misfit = end % align;
        let offset = if misfit == 0 {
            end
        } else {
            match end.checked_add(align - misfit) {
                Some(offset) => offset,
                None => {
                    return Err(LayoutError::TooLarge);
                },
            }
        };
        end = match offset.checked_add(size) {
            Some(end) => end,
            None => {
                return Err(LayoutError::TooLarge);
            },
        };
        offsets.push(offset);
        i = i + 1;
    }
    proof {
        assert(all.take(fields.len() as int) =~= all);
        lemma_layout_invariants(all);
    }
    let misfit = end % max_align;
    let size = if misfit == 0 {
        end
    } else {
        match end.checked_add(max_align - misfit) {
            Some(size) => size,
            None => {
                return Err(LayoutError::TooLarge);
            },
        }
    };
    proof {
        assert(offsets@.map_values(|o: usize| o as nat) =~= layout_offsets(all));
    }
    Ok((offsets, size, max_align))
}

/// Sizes and alignments as natural numbers.
pub open spec fn layout_fields(fields: Seq<(usize, usize)>) -> Seq<(nat, nat)> {
    fields.map_values(|f: (usize, usize)| (f.0 as nat, f.1 as nat))
}

} // verus!
