//! What is written in the textual format is read back as it was.

use crate::globals::{StringInterner, Symbol};
use crate::ir::assembly::assembler::assemble;
use crate::ir::assembly::grammar::initial_state;
use crate::ir::assembly::keywords::lemma_keywords_are_words;
use crate::ir::assembly::lexing::{lemma_lex_render, piece_valid, pieces_ok, separated};
use crate::ir::assembly::names::{
    comp_named, function_named, is_label_name, is_name, module_named,
};
use crate::ir::assembly::parsing::{lemma_parse_module, matches_at, module_sized};
use crate::ir::assembly::tokens::{lex, IRAssemblyTokenKind};
use crate::ir::assembly::{
    binary_operator_text, binding_pieces, body_pieces, bytes_pieces, comp_kind_pieces, comp_pieces,
    function_pieces, function_writable, integer, label_pieces, label_ref_piece, module_pieces,
    module_text,
    module_writable, param_pieces, params_pieces, render, sign, type_pieces, unary_operator_text,
    value_pieces, values_pieces, word, Gap, Piece,
};
use crate::ir::comp::{IRCompKindView, IRCompView};
use crate::ir::{IRFunctionView, IRType, IRValue};
use crate::text::lemma_decimal_value;
use vstd::prelude::*;

verus! {

/// Whether there is a gap before the pieces, if there are any.
pub open spec fn apart(pieces: Seq<Piece>) -> bool {
    pieces.len() == 0 || pieces[0].gap != Gap::Glue
}

/// Pieces that read as tokens still do behind others that do, where there
/// is a gap between them.
pub proof fn lemma_join(a: Seq<Piece>, b: Seq<Piece>)
    requires
        pieces_ok(a),
        pieces_ok(b),
        apart(b),
    ensures
        pieces_ok(a + b),
{
    let all = a + b;
    assert forall|i: int| 0 <= i < all.len() implies piece_valid(#[trigger] all[i]) by {
        if i < a.len() {
            assert(all[i] == a[i]);
        } else {
            assert(all[i] == b[i - a.len()]);
        }
    }
    assert forall|i: int| 0 <= i < all.len() - 1 implies separated(
        #[trigger] all[i],
        all[i + 1],
    ) by {
        if i + 1 < a.len() {
            assert(separated(a[i], a[i + 1]));
        } else if i + 1 == a.len() {
            assert(all[i + 1] == b[0]);
        } else {
            assert(separated(b[i - a.len()], b[i - a.len() + 1]));
        }
    }
}

/// Two pieces that read as tokens, and do not run into one, read as their
/// tokens.
proof fn lemma_pair_ok(first: Piece, second: Piece)
    requires
        piece_valid(first),
        piece_valid(second),
        separated(first, second),
    ensures
        pieces_ok(seq![first, second]),
{
}

/// A type reads as its tokens.
pub proof fn lemma_type_ok(gap: Gap, ir_type: IRType)
    ensures
        pieces_ok(type_pieces(gap, ir_type)),
{
    lemma_decimal_value(ir_type.size as nat);
    lemma_decimal_value(ir_type.align as nat);
}

/// A value with a name that is a word reads as its tokens.
pub proof fn lemma_value_ok(interner: &StringInterner, gap: Gap, value: IRValue)
    requires
        is_name(interner, value.id),
    ensures
        pieces_ok(value_pieces(interner, gap, value)),
{
}

/// Values with names that are words read as their tokens.
pub proof fn lemma_values_ok(interner: &StringInterner, values: Seq<IRValue>)
    requires
        forall|i: int| 0 <= i < values.len() ==> is_name(interner, (#[trigger] values[i]).id),
    ensures
        pieces_ok(values_pieces(interner, values)),
        apart(values_pieces(interner, values)),
    decreases values.len(),
{
    if values.len() > 0 {
        let firsts = values.drop_last();
        assert forall|i: int| 0 <= i < firsts.len() implies is_name(
            interner,
            (#[trigger] firsts[i]).id,
        ) by {
            assert(firsts[i] == values[i]);
        }
        lemma_values_ok(interner, firsts);
        lemma_value_ok(interner, Gap::Space, values.last());
        lemma_join(
            values_pieces(interner, firsts),
            value_pieces(interner, Gap::Space, values.last()),
        );
    }
}

/// Bytes read as their tokens.
pub proof fn lemma_bytes_ok(bytes: Seq<u8>)
    ensures
        pieces_ok(bytes_pieces(bytes)),
        apart(bytes_pieces(bytes)),
    decreases bytes.len(),
{
    if bytes.len() > 0 {
        lemma_bytes_ok(bytes.drop_last());
        lemma_decimal_value(bytes.last() as nat);
        let b = seq![integer(Gap::Space, bytes.last() as nat)];
        lemma_join(bytes_pieces(bytes.drop_last()), b);
        assert(bytes_pieces(bytes) =~= bytes_pieces(bytes.drop_last()) + b);
    }
}

/// The name of a parameter or of a computation reads as its tokens.
pub proof fn lemma_binding_ok(interner: &StringInterner, gap: Gap, name: Symbol)
    requires
        is_name(interner, name),
    ensures
        pieces_ok(binding_pieces(interner, gap, name)),
{
    lemma_keywords_are_words();
}

/// A call reads as its tokens.
proof fn lemma_call_ok(interner: &StringInterner, gap: Gap, kind: IRCompKindView)
    requires
        comp_named(interner, IRCompView { kind, id: None }),
        kind is FunctionCall,
    ensures
        pieces_ok(comp_kind_pieces(interner, gap, kind)),
        comp_kind_pieces(interner, gap, kind).len() > 0,
        comp_kind_pieces(interner, gap, kind)[0].gap == gap,
{
    lemma_keywords_are_words();
    match kind {
        IRCompKindView::FunctionCall { name, args } => {
            lemma_decimal_value(args.len());
            lemma_values_ok(interner, args);
            lemma_join(
                seq![
                    word(gap, "call"@),
                    word(Gap::Space, interner.name_of(name)),
                    integer(Gap::Space, args.len()),
                ],
                values_pieces(interner, args),
            );
        },
        _ => {},
    }
}

/// A binary operation reads as its tokens.
proof fn lemma_binary_ok(interner: &StringInterner, gap: Gap, kind: IRCompKindView)
    requires
        comp_named(interner, IRCompView { kind, id: None }),
        kind is BinaryOperation,
    ensures
        pieces_ok(comp_kind_pieces(interner, gap, kind)),
        comp_kind_pieces(interner, gap, kind).len() > 0,
        comp_kind_pieces(interner, gap, kind)[0].gap == gap,
{
    lemma_keywords_are_words();
    match kind {
        IRCompKindView::BinaryOperation(operation) => {
            let a = seq![
                word(gap, "binop"@),
                word(Gap::Space, binary_operator_text(operation.kind)),
            ];
            let b = value_pieces(interner, Gap::Space, operation.left_operand);
            let c = value_pieces(interner, Gap::Space, operation.right_operand);
            lemma_value_ok(interner, Gap::Space, operation.left_operand);
            lemma_value_ok(interner, Gap::Space, operation.right_operand);
            lemma_join(a, b);
            lemma_join(a + b, c);
        },
        _ => {},
    }
}

/// A unary operation reads as its tokens.
proof fn lemma_unary_ok(interner: &StringInterner, gap: Gap, kind: IRCompKindView)
    requires
        comp_named(interner, IRCompView { kind, id: None }),
        kind is UnaryOperation,
    ensures
        pieces_ok(comp_kind_pieces(interner, gap, kind)),
        comp_kind_pieces(interner, gap, kind).len() > 0,
        comp_kind_pieces(interner, gap, kind)[0].gap == gap,
{
    lemma_keywords_are_words();
    match kind {
        IRCompKindView::UnaryOperation(operation) => {
            let a = seq![
                word(gap, "unop"@),
                word(Gap::Space, unary_operator_text(operation.kind)),
            ];
            let b = value_pieces(interner, Gap::Space, operation.operand);
            lemma_value_ok(interner, Gap::Space, operation.operand);
            lemma_join(a, b);
        },
        _ => {},
    }
}

/// A constant reads as its tokens.
proof fn lemma_constant_ok(interner: &StringInterner, gap: Gap, kind: IRCompKindView)
    requires
        comp_named(interner, IRCompView { kind, id: None }),
        kind is Constant,
    ensures
        pieces_ok(comp_kind_pieces(interner, gap, kind)),
        comp_kind_pieces(interner, gap, kind).len() > 0,
        comp_kind_pieces(interner, gap, kind)[0].gap == gap,
{
    lemma_keywords_are_words();
    match kind {
        IRCompKindView::Constant(bytes) => {
            let first = word(gap, "const"@);
            let second = integer(Gap::Space, bytes.len());
            lemma_decimal_value(bytes.len());
            assert(piece_valid(second));
            lemma_pair_ok(first, second);
            lemma_bytes_ok(bytes);
            lemma_join(seq![first, second], bytes_pieces(bytes));
        },
        _ => {},
    }
}

/// An allocation reads as its tokens.
proof fn lemma_alloc_ok(interner: &StringInterner, gap: Gap, kind: IRCompKindView)
    requires
        comp_named(interner, IRCompView { kind, id: None }),
        kind is Alloc,
    ensures
        pieces_ok(comp_kind_pieces(interner, gap, kind)),
        comp_kind_pieces(interner, gap, kind).len() > 0,
        comp_kind_pieces(interner, gap, kind)[0].gap == gap,
{
    lemma_keywords_are_words();
    match kind {
        IRCompKindView::Alloc(ir_type) => {
            lemma_type_ok(Gap::Space, ir_type);
            lemma_join(seq![word(gap, "alloc"@)], type_pieces(Gap::Space, ir_type));
        },
        _ => {},
    }
}

/// A store reads as its tokens.
proof fn lemma_store_ok(interner: &StringInterner, gap: Gap, kind: IRCompKindView)
    requires
        comp_named(interner, IRCompView { kind, id: None }),
        kind is Store,
    ensures
        pieces_ok(comp_kind_pieces(interner, gap, kind)),
        comp_kind_pieces(interner, gap, kind).len() > 0,
        comp_kind_pieces(interner, gap, kind)[0].gap == gap,
{
    lemma_keywords_are_words();
    match kind {
        IRCompKindView::Store(ir_type, location, value) => {
            let a = seq![word(gap, "store"@)];
            let b = type_pieces(Gap::Space, ir_type);
            let c = value_pieces(interner, Gap::Space, location);
            let d = value_pieces(interner, Gap::Space, value);
            lemma_type_ok(Gap::Space, ir_type);
            lemma_value_ok(interner, Gap::Space, location);
            lemma_value_ok(interner, Gap::Space, value);
            lemma_join(a, b);
            lemma_join(a + b, c);
            lemma_join(a + b + c, d);
        },
        _ => {},
    }
}

/// A load reads as its tokens.
proof fn lemma_load_ok(interner: &StringInterner, gap: Gap, kind: IRCompKindView)
    requires
        comp_named(interner, IRCompView { kind, id: None }),
        kind is Load,
    ensures
        pieces_ok(comp_kind_pieces(interner, gap, kind)),
        comp_kind_pieces(interner, gap, kind).len() > 0,
        comp_kind_pieces(interner, gap, kind)[0].gap == gap,
{
    lemma_keywords_are_words();
    match kind {
        IRCompKindView::Load(ir_type, location) => {
            let a = seq![word(gap, "load"@)];
            let b = type_pieces(Gap::Space, ir_type);
            let c = value_pieces(interner, Gap::Space, location);
            lemma_type_ok(Gap::Space, ir_type);
            lemma_value_ok(interner, Gap::Space, location);
            lemma_join(a, b);
            lemma_join(a + b, c);
        },
        _ => {},
    }
}

/// A store at an offset reads as its tokens.
proof fn lemma_offset_store_ok(interner: &StringInterner, gap: Gap, kind: IRCompKindView)
    requires
        comp_named(interner, IRCompView { kind, id: None }),
        kind is OffsetStore,
    ensures
        pieces_ok(comp_kind_pieces(interner, gap, kind)),
        comp_kind_pieces(interner, gap, kind).len() > 0,
        comp_kind_pieces(interner, gap, kind)[0].gap == gap,
{
    lemma_keywords_are_words();
    match kind {
        IRCompKindView::OffsetStore(ir_type, location, value, offset) => {
            let a = seq![word(gap, "offsetstore"@)];
            let b = type_pieces(Gap::Space, ir_type);
            let c = value_pieces(interner, Gap::Space, location);
            let d = value_pieces(interner, Gap::Space, value);
            let e = seq![integer(Gap::Space, offset as nat)];
            lemma_type_ok(Gap::Space, ir_type);
            lemma_value_ok(interner, Gap::Space, location);
            lemma_value_ok(interner, Gap::Space, value);
            lemma_decimal_value(offset as nat);
            lemma_join(a, b);
            lemma_join(a + b, c);
            lemma_join(a + b + c, d);
            lemma_join(a + b + c + d, e);
            assert(comp_kind_pieces(interner, gap, kind) =~= a + b + c + d + e);
        },
        _ => {},
    }
}

/// A load at an offset reads as its tokens.
proof fn lemma_offset_load_ok(interner: &StringInterner, gap: Gap, kind: IRCompKindView)
    requires
        comp_named(interner, IRCompView { kind, id: None }),
        kind is OffsetLoad,
    ensures
        pieces_ok(comp_kind_pieces(interner, gap, kind)),
        comp_kind_pieces(interner, gap, kind).len() > 0,
        comp_kind_pieces(interner, gap, kind)[0].gap == gap,
{
    lemma_keywords_are_words();
    match kind {
        IRCompKindView::OffsetLoad(ir_type, location, offset) => {
            let a = seq![word(gap, "offsetload"@)];
            let b = type_pieces(Gap::Space, ir_type);
            let c = value_pieces(interner, Gap::Space, location);
            let e = seq![integer(Gap::Space, offset as nat)];
            lemma_type_ok(Gap::Space, ir_type);
            lemma_value_ok(interner, Gap::Space, location);
            lemma_decimal_value(offset as nat);
            lemma_join(a, b);
            lemma_join(a + b, c);
            lemma_join(a + b + c, e);
            assert(comp_kind_pieces(interner, gap, kind) =~= a + b + c + e);
        },
        _ => {},
    }
}

/// A return reads as its tokens.
proof fn lemma_return_ok(interner: &StringInterner, gap: Gap, kind: IRCompKindView)
    requires
        comp_named(interner, IRCompView { kind, id: None }),
        kind is Return,
    ensures
        pieces_ok(comp_kind_pieces(interner, gap, kind)),
        comp_kind_pieces(interner, gap, kind).len() > 0,
        comp_kind_pieces(interner, gap, kind)[0].gap == gap,
{
    lemma_keywords_are_words();
    match kind {
        IRCompKindView::Return(value) => {
            lemma_value_ok(interner, Gap::Space, value);
            lemma_join(seq![word(gap, "return"@)], value_pieces(interner, Gap::Space, value));
        },
        _ => {},
    }
}

/// A conditional jump reads as its tokens.
proof fn lemma_if_ok(interner: &StringInterner, gap: Gap, kind: IRCompKindView)
    requires
        comp_named(interner, IRCompView { kind, id: None }),
        kind is If,
    ensures
        pieces_ok(comp_kind_pieces(interner, gap, kind)),
        comp_kind_pieces(interner, gap, kind).len() > 0,
        comp_kind_pieces(interner, gap, kind)[0].gap == gap,
{
    lemma_keywords_are_words();
    match kind {
        IRCompKindView::If(value, label) => {
            let a = seq![word(gap, "if"@)];
            let b = value_pieces(interner, Gap::Space, value);
            let c = seq![label_ref_piece(interner, label)];
            lemma_value_ok(interner, Gap::Space, value);
            lemma_join(a, b);
            lemma_join(a + b, c);
            assert(comp_kind_pieces(interner, gap, kind) =~= a + b + c);
        },
        _ => {},
    }
}

/// A jump reads as its tokens.
proof fn lemma_jmp_ok(interner: &StringInterner, gap: Gap, kind: IRCompKindView)
    requires
        comp_named(interner, IRCompView { kind, id: None }),
        kind is Jmp,
    ensures
        pieces_ok(comp_kind_pieces(interner, gap, kind)),
        comp_kind_pieces(interner, gap, kind).len() > 0,
        comp_kind_pieces(interner, gap, kind)[0].gap == gap,
{
    lemma_keywords_are_words();
    match kind {
        IRCompKindView::Jmp(label) => {},
        _ => {},
    }
}

/// What a computation does reads as its tokens.
pub proof fn lemma_comp_kind_ok(interner: &StringInterner, gap: Gap, kind: IRCompKindView)
    requires
        comp_named(interner, IRCompView { kind, id: None }),
    ensures
        pieces_ok(comp_kind_pieces(interner, gap, kind)),
        comp_kind_pieces(interner, gap, kind).len() > 0,
        comp_kind_pieces(interner, gap, kind)[0].gap == gap,
{
    match kind {
        IRCompKindView::FunctionCall { .. } => {
            lemma_call_ok(interner, gap, kind);
        },
        IRCompKindView::BinaryOperation(..) => {
            lemma_binary_ok(interner, gap, kind);
        },
        IRCompKindView::UnaryOperation(..) => {
            lemma_unary_ok(interner, gap, kind);
        },
        IRCompKindView::Constant(..) => {
            lemma_constant_ok(interner, gap, kind);
        },
        IRCompKindView::Alloc(..) => {
            lemma_alloc_ok(interner, gap, kind);
        },
        IRCompKindView::Store(..) => {
            lemma_store_ok(interner, gap, kind);
        },
        IRCompKindView::Load(..) => {
            lemma_load_ok(interner, gap, kind);
        },
        IRCompKindView::OffsetStore(..) => {
            lemma_offset_store_ok(interner, gap, kind);
        },
        IRCompKindView::OffsetLoad(..) => {
            lemma_offset_load_ok(interner, gap, kind);
        },
        IRCompKindView::Return(..) => {
            lemma_return_ok(interner, gap, kind);
        },
        IRCompKindView::If(..) => {
            lemma_if_ok(interner, gap, kind);
        },
        IRCompKindView::Jmp(..) => {
            lemma_jmp_ok(interner, gap, kind);
        },
    }
}

/// A computation reads as its tokens.
pub proof fn lemma_comp_ok(interner: &StringInterner, gap: Gap, comp: IRCompView)
    requires
        comp_named(interner, comp),
    ensures
        pieces_ok(comp_pieces(interner, gap, comp)),
        comp_pieces(interner, gap, comp).len() > 0,
        comp_pieces(interner, gap, comp)[0].gap == gap,
{
    match comp.id {
        Some(id) => {
            lemma_binding_ok(interner, gap, id);
            lemma_comp_kind_ok(interner, Gap::Space, comp.kind);
            lemma_join(
                binding_pieces(interner, gap, id),
                comp_kind_pieces(interner, Gap::Space, comp.kind),
            );
        },
        None => {
            lemma_comp_kind_ok(interner, gap, comp.kind);
        },
    }
}

/// A parameter reads as its tokens.
pub proof fn lemma_param_ok(interner: &StringInterner, param: (Option<Symbol>, IRType))
    requires
        param.0 matches Some(name) ==> is_name(interner, name),
    ensures
        pieces_ok(param_pieces(interner, param)),
        apart(param_pieces(interner, param)),
{
    lemma_type_ok(Gap::Space, param.1);
    match param.0 {
        Some(name) => {
            lemma_binding_ok(interner, Gap::Space, name);
            lemma_join(
                binding_pieces(interner, Gap::Space, name),
                type_pieces(Gap::Space, param.1),
            );
        },
        None => {},
    }
}

/// The parameters from the index `from` on read as their tokens.
pub proof fn lemma_params_ok(
    interner: &StringInterner,
    params: Seq<(Option<Symbol>, IRType)>,
    from: int,
)
    requires
        forall|i: int|
            0 <= i < params.len() ==> ((#[trigger] params[i]).0 matches Some(name) ==> is_name(
                interner,
                name,
            )),
    ensures
        pieces_ok(params_pieces(interner, params, from)),
        apart(params_pieces(interner, params, from)),
    decreases params.len() - from,
{
    if 0 <= from < params.len() {
        let param = params[from];
        lemma_params_ok(interner, params, from + 1);
        lemma_param_ok(interner, param);
        lemma_join(param_pieces(interner, param), params_pieces(interner, params, from + 1));
    }
}

/// The lines of a function from the computation `at` and the label
/// definition `label` on read as their tokens.
pub proof fn lemma_body_ok(
    interner: &StringInterner,
    function: IRFunctionView,
    at: int,
    label: int,
)
    requires
        function_named(interner, function),
    ensures
        pieces_ok(body_pieces(interner, function, at, label)),
        apart(body_pieces(interner, function, at, label)),
    decreases function.comps.len() - at + function.label_defs.len() - label,
{
    if at < 0 || label < 0 || at > function.comps.len() || label > function.label_defs.len() {
    } else if label < function.label_defs.len() && function.label_defs[label].1 == at {
        lemma_body_ok(interner, function, at, label + 1);
        lemma_join(
            label_pieces(interner, function.label_defs[label].0),
            body_pieces(interner, function, at, label + 1),
        );
    } else if at < function.comps.len() {
        lemma_body_ok(interner, function, at + 1, label);
        lemma_comp_ok(interner, Gap::Indent, function.comps[at]);
        lemma_join(
            comp_pieces(interner, Gap::Indent, function.comps[at]),
            body_pieces(interner, function, at + 1, label),
        );
    }
}

/// A function reads as its tokens.
pub proof fn lemma_function_ok(interner: &StringInterner, gap: Gap, function: IRFunctionView)
    requires
        function_named(interner, function),
    ensures
        pieces_ok(function_pieces(interner, gap, function)),
        function_pieces(interner, gap, function).len() > 0,
        function_pieces(interner, gap, function)[0].gap == gap,
{
    lemma_keywords_are_words();
    let head = seq![
        word(gap, "fn"@),
        word(Gap::Space, interner.name_of(function.name)),
        sign(Gap::Glue, IRAssemblyTokenKind::Colon),
    ];
    let params = params_pieces(interner, function.params, 0);
    let arrow = seq![sign(Gap::Space, IRAssemblyTokenKind::Arrow)];
    let ty = type_pieces(Gap::Space, function.return_type);
    let body = body_pieces(interner, function, 0, 0);
    let end = seq![word(Gap::Line, "endfn"@)];
    lemma_params_ok(interner, function.params, 0);
    lemma_type_ok(Gap::Space, function.return_type);
    lemma_body_ok(interner, function, 0, 0);
    lemma_join(head, params);
    lemma_join(head + params, arrow);
    lemma_join(head + params + arrow, ty);
    lemma_join(body, end);
    lemma_join(head + params + arrow + ty, body + end);
    assert(function_pieces(interner, gap, function) =~= head + params + arrow + ty + (body + end));
}

/// The functions of a module from the index `from` on read as their
/// tokens.
pub proof fn lemma_module_ok(interner: &StringInterner, functions: Seq<IRFunctionView>, from: int)
    requires
        module_named(interner, functions),
    ensures
        pieces_ok(module_pieces(interner, functions, from)),
        from > 0 ==> apart(module_pieces(interner, functions, from)),
    decreases functions.len() - from,
{
    if 0 <= from < functions.len() {
        let gap = if from == 0 {
            Gap::Glue
        } else {
            Gap::Blank
        };
        lemma_module_ok(interner, functions, from + 1);
        lemma_function_ok(interner, gap, functions[from]);
        lemma_join(
            function_pieces(interner, gap, functions[from]),
            module_pieces(interner, functions, from + 1),
        );
    }
}

/// A module that was written is read back as it was, and nothing is
/// interned for it: assembling the text of functions that can be written
/// gives the functions, and leaves the names and the count of the interner
/// as they were.
pub proof fn lemma_assemble_written(interner: &StringInterner, functions: Seq<IRFunctionView>)
    requires
        interner.wf(),
        module_writable(interner, functions),
        module_sized(functions),
    ensures
        assemble(module_text(interner, functions), interner.names(), interner.count()) matches Ok(
            (read, state),
        ) && read == functions && state.names == interner.names() && state.count
            == interner.count(),
{
    let pieces = module_pieces(interner, functions, 0);
    assert forall|i: int| 0 <= i < functions.len() implies function_named(
        interner,
        #[trigger] functions[i],
    ) by {
        assert(function_writable(interner, functions[i]));
    }
    lemma_module_ok(interner, functions, 0);
    lemma_lex_render(pieces);
    let tokens = lex(render(pieces), 0);
    let st = initial_state(interner.names(), interner.count());
    assert(matches_at(tokens, 0, pieces)) by {
        assert forall|j: int| 0 <= j < pieces.len() implies (#[trigger] tokens[0 + j]).kind
            == pieces[j].kind && tokens[0 + j].text == pieces[j].text by {
            assert(tokens[j].kind == pieces[j].kind);
        }
    }
    assert(functions.take(0) =~= Seq::<IRFunctionView>::empty());
    lemma_parse_module(tokens, st, interner, functions, 0);
}

} // verus!
