//! What holds of the lowering whatever the program is.

use crate::ir::comp::{IRCompKindView, IRCompView};
use crate::ir::interpreter::bytes::{bytes_of_uint, pow256};
use crate::solidlang::ast::ASTExpression;
use crate::solidlang::context::function::FunctionView;
use crate::solidlang::context::pool::PoolRef;
use crate::solidlang::context::template::Template;
use crate::solidlang::context::ty::{size_and_align, Ty, TyPrimitive, TyView};
use crate::solidlang::lowerer::codegen::model::{
    c_integer, c_resolve, c_speculate, call_args, find_compiled, finish_call,
    instantiate_function, is_integer, is_signed, new_id, CompileState,
};
use crate::solidlang::lowerer::codegen::{ResultView, ValueView};
use crate::solidlang::lowerer::error::{CompileError, CompileErrorKind, TypeError};
use crate::solidlang::lowerer::model::LowererView;
use crate::solidlang::span::Span;
use vstd::prelude::*;

verus! {

/// Whether the number can be written as a literal of the integer type: it
/// is below two to the power of the bits of the type, of which a type with a
/// sign has one less for numbers.
pub open spec fn representable(value: u64, primitive: TyPrimitive) -> bool {
    let width = size_and_align(TyView::Primitive(primitive)).0;
    if is_signed(primitive) {
        2 * value < pow256(width)
    } else {
        value < pow256(width)
    }
}

/// A number with an integer type expected is lowered exactly where the
/// type holds the number and a name is left for the constant. A number that
/// the type does not hold is an overflow, whatever names are left; where
/// only the name is missing, the error is that of the name. A number that is
/// lowered becomes one constant, whose bytes are the number in as many bytes
/// as the type has, in the byte order of the lowerer, and it gives the value
/// of that constant with the expected type.
pub proof fn lemma_integer_literal<'a>(
    st: CompileState<'a>,
    value: u64,
    primitive: TyPrimitive,
    span: Span,
)
    requires
        is_integer(primitive),
    ensures
        c_integer(st, value, Some(TyView::Primitive(primitive)), span) is Ok <==> representable(
            value,
            primitive,
        ) && new_id(st, "_v"@, span) is Ok,
        !representable(value, primitive) ==> c_integer(
            st,
            value,
            Some(TyView::Primitive(primitive)),
            span,
        ) == Err::<(ResultView, CompileState<'a>), CompileError>(
            CompileError { kind: CompileErrorKind::Type(TypeError::LiteralOverflow), span },
        ),
        representable(value, primitive) && new_id(st, "_v"@, span) is Err ==> c_integer(
            st,
            value,
            Some(TyView::Primitive(primitive)),
            span,
        ) == Err::<(ResultView, CompileState<'a>), CompileError>(
            new_id(st, "_v"@, span)->Err_0,
        ),
        c_integer(st, value, Some(TyView::Primitive(primitive)), span) matches Ok((result, after))
            ==> {
            let width = size_and_align(TyView::Primitive(primitive)).0;
            let (id, named) = new_id(st, "_v"@, span)->Ok_0;
            &&& result == ResultView::Value(
                ValueView { id: Some(id), ty: TyView::Primitive(primitive) },
            )
            &&& after.lowerer == named.lowerer
            &&& after.codegen.comps == st.codegen.comps.push(
                IRCompView {
                    kind: IRCompKindView::Constant(
                        bytes_of_uint(value as nat, width, st.lowerer.endian),
                    ),
                    id: Some(id),
                },
            )
        },
{
    crate::ir::interpreter::bytes::lemma_pow256_values();
}

/// A number with no integer type expected is not lowered.
pub proof fn lemma_integer_literal_needs_integer<'a>(
    st: CompileState<'a>,
    value: u64,
    expected: TyView,
    span: Span,
)
    requires
        !(expected matches TyView::Primitive(primitive) && is_integer(primitive)),
    ensures
        c_integer(st, value, Some(expected), span) is Err,
{
}

/// Whether the function fits the call: the arguments can be lowered for
/// it.
pub open spec fn survives<'a>(
    st: CompileState<'a>,
    expression: &'a ASTExpression,
    depth: nat,
) -> spec_fn(FunctionView) -> bool {
    |function: FunctionView|
        c_speculate(st, expression, function, call_args(expression).len(), depth) is Some
}

/// In the functions for which a predicate holds, each function occurs as
/// often as among all functions where the predicate holds for it, and not at
/// all otherwise.
pub proof fn lemma_filter_count<A>(s: Seq<A>, p: spec_fn(A) -> bool, x: A)
    ensures
        s.filter(p).to_multiset().count(x) == if p(x) {
            s.to_multiset().count(x)
        } else {
            0
        },
    decreases s.len(),
{
    broadcast use vstd::seq_lib::group_to_multiset_ensures;

    reveal(Seq::filter);
    if s.len() == 0 {
        assert(s.filter(p) =~= Seq::<A>::empty());
        assert(s =~= Seq::<A>::empty());
    } else {
        let firsts = s.drop_last();
        lemma_filter_count(firsts, p, x);
        assert(s =~= firsts.push(s.last()));
        assert(s.to_multiset() =~= firsts.to_multiset().insert(s.last()));
        if p(s.last()) {
            assert(s.filter(p) =~= firsts.filter(p).push(s.last()));
            assert(s.filter(p).to_multiset() =~= firsts.filter(p).to_multiset().insert(
                s.last(),
            ));
        } else {
            assert(s.filter(p) =~= firsts.filter(p));
        }
    }
}

/// Trying the candidates one by one counts those that fit, and finds the
/// first of them.
pub proof fn lemma_resolve_counts<'a>(
    st: CompileState<'a>,
    expression: &'a ASTExpression,
    candidates: Seq<FunctionView>,
    count: nat,
    depth: nat,
)
    requires
        count <= candidates.len(),
    ensures
        ({
            let resolution = c_resolve(st, expression, candidates, count, depth);
            let fit = candidates.take(count as int).filter(survives(st, expression, depth));
            &&& resolution.count == fit.len()
            &&& resolution.winner == if fit.len() > 0 {
                Some(
                    (
                        fit[0],
                        c_speculate(
                            st,
                            expression,
                            fit[0],
                            call_args(expression).len(),
                            depth,
                        )->0,
                    ),
                )
            } else {
                None
            }
        }),
    decreases count,
{
    reveal(Seq::filter);
    let p = survives(st, expression, depth);
    if count == 0 {
        assert(candidates.take(0).filter(p) =~= Seq::<FunctionView>::empty());
    } else {
        lemma_resolve_counts(st, expression, candidates, (count - 1) as nat, depth);
        let firsts = candidates.take(count - 1);
        let all = candidates.take(count as int);
        assert(all.drop_last() =~= firsts);
        assert(all.last() == candidates[count - 1]);
        if p(candidates[count - 1]) {
            assert(all.filter(p) =~= firsts.filter(p).push(candidates[count - 1]));
        } else {
            assert(all.filter(p) =~= firsts.filter(p));
        }
    }
}

/// The function that a call selects does not depend on the order in which
/// the candidates are tried: two lists of the same candidates, each as often
/// in one as in the other, give the same function with the same state behind
/// its arguments, or the same error.
pub proof fn lemma_overload_order<'a>(
    st: CompileState<'a>,
    expression: &'a ASTExpression,
    first: Seq<FunctionView>,
    second: Seq<FunctionView>,
    expected: Option<TyView>,
    depth: nat,
    span: Span,
)
    requires
        first.to_multiset() == second.to_multiset(),
    ensures
        finish_call(c_resolve(st, expression, first, first.len(), depth), expected, span)
            == finish_call(
            c_resolve(st, expression, second, second.len(), depth),
            expected,
            span,
        ),
{
    broadcast use vstd::seq_lib::group_to_multiset_ensures;

    let p = survives(st, expression, depth);
    lemma_resolve_counts(st, expression, first, first.len(), depth);
    lemma_resolve_counts(st, expression, second, second.len(), depth);
    assert(first.take(first.len() as int) =~= first);
    assert(second.take(second.len() as int) =~= second);
    let a = first.filter(p);
    let b = second.filter(p);
    assert forall|x: FunctionView| a.to_multiset().count(x) == b.to_multiset().count(x) by {
        lemma_filter_count(first, p, x);
        lemma_filter_count(second, p, x);
    }
    assert(a.to_multiset() =~= b.to_multiset());
    a.to_multiset_ensures();
    b.to_multiset_ensures();
    assert(a.len() == a.to_multiset().len());
    assert(b.len() == b.to_multiset().len());
    assert(a.len() == b.len());
    if a.len() == 1 {
        assert(a.contains(a[0]));
        assert(b.to_multiset().count(a[0]) > 0);
        assert(b.contains(a[0]));
        let i = choose|i: int| 0 <= i < b.len() && b[i] == a[0];
        assert(b[0] == a[0]);
    }
}

/// Where a template of a function has given a function for arguments, it
/// gives that function for them again, and nothing changes.
pub proof fn lemma_instantiate_function_again<'a>(
    st: LowererView<'a>,
    template: PoolRef<Template<'a>>,
    args: Seq<PoolRef<Ty>>,
    depth: nat,
    span: Span,
)
    requires
        find_compiled(st.compiled, template, args) is Some,
    ensures
        instantiate_function(st, template, args, depth, span) == Ok::<
            (FunctionView, LowererView<'a>),
            CompileError,
        >((find_compiled(st.compiled, template, args)->0, st)),
{
}

} // verus!
