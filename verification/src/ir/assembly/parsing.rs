//! What the assembler makes of the tokens of a written module: the module.

use crate::globals::{lemma_name_of, StringInterner, Symbol};
use crate::ir::assembly::grammar::{
    advance, binary_operators, choose_keyword, comp_keywords, expect_keyword, expect_kind,
    expecting, intern, is_keyword, parse_binary_operation, parse_binding, parse_body, parse_bytes,
    parse_call, parse_constant, parse_function, parse_integer, parse_ir_comp, parse_ir_module,
    parse_ir_type, parse_ir_value, parse_ir_values, parse_label_ref, parse_load, parse_params,
    parse_store, parse_symbol, parse_unary_operation, peek, unary_operators, AssemblerState,
    ErrorView, IRAssemblerExpected,
};
use crate::ir::assembly::keywords::{
    binary_index, lemma_binary_index, lemma_binary_operators_differ,
    lemma_comp_keywords_differ, lemma_comp_keywords_end_nothing, lemma_unary_index,
    lemma_unary_operators_differ, unary_index,
};
use crate::ir::assembly::tokens::{IRAssemblyTokenKind, TokenView};
use crate::ir::assembly::{
    binary_operator_text, binding_pieces, body_pieces, bytes_pieces, comp_kind_pieces,
    comp_known, comp_pieces, function_known, function_pieces, function_writable, integer,
    label_pieces, label_ref_piece, labels_in_order, module_pieces, module_writable, param_pieces,
    params_pieces, sign, type_pieces, unary_operator_text,
    value_pieces, values_pieces, word, Gap, Piece,
};
use crate::ir::comp::{
    IRCompBinaryOperation, IRCompKindView, IRCompUnaryOperation, IRCompView,
};
use crate::ir::{IRFunctionView, IRType, IRValue};
use crate::text::{decimal, lemma_decimal_value};
use vstd::prelude::*;

verus! {

/// Whether the tokens from the index `at` on are the pieces, and a token
/// follows them.
pub open spec fn matches_at(tokens: Seq<TokenView>, at: int, pieces: Seq<Piece>) -> bool {
    &&& 0 <= at
    &&& at + pieces.len() < tokens.len()
    &&& forall|j: int|
        0 <= j < pieces.len() ==> (#[trigger] tokens[at + j]).kind == pieces[j].kind && tokens[at
            + j].text == pieces[j].text
}

/// The state behind `count` further tokens, with nothing tried yet.
pub open spec fn behind(st: AssemblerState, count: int) -> AssemblerState {
    AssemblerState { pos: st.pos + count, expected: Seq::empty(), ..st }
}

/// The state behind `count` further tokens: the same state where there
/// are none.
pub open spec fn after(st: AssemblerState, count: int) -> AssemblerState {
    if count == 0 {
        st
    } else {
        behind(st, count)
    }
}

/// Where tokens are pieces, they are the first of the pieces and, behind
/// them, the others.
pub proof fn lemma_matches_split(tokens: Seq<TokenView>, at: int, a: Seq<Piece>, b: Seq<Piece>)
    requires
        matches_at(tokens, at, a + b),
    ensures
        matches_at(tokens, at, a),
        matches_at(tokens, at + a.len(), b),
{
    assert forall|j: int| 0 <= j < a.len() implies (#[trigger] tokens[at + j]).kind == a[j].kind
        && tokens[at + j].text == a[j].text by {
        assert((a + b)[j] == a[j]);
    }
    assert forall|j: int| 0 <= j < b.len() implies (#[trigger] tokens[at + a.len() + j]).kind
        == b[j].kind && tokens[at + a.len() + j].text == b[j].text by {
        assert((a + b)[a.len() + j] == b[j]);
        assert(tokens[at + (a.len() + j)].kind == (a + b)[a.len() + j].kind);
    }
}

/// Where tokens are a piece and more pieces, they are the others behind
/// the one.
pub proof fn lemma_matches_first(tokens: Seq<TokenView>, at: int, pieces: Seq<Piece>)
    requires
        matches_at(tokens, at, pieces),
        pieces.len() > 0,
    ensures
        tokens[at].kind == pieces[0].kind,
        tokens[at].text == pieces[0].text,
        at < tokens.len() - 1,
        matches_at(tokens, at + 1, pieces.skip(1)),
{
    assert(tokens[at + 0].kind == pieces[0].kind);
    assert forall|j: int| 0 <= j < pieces.skip(1).len() implies (#[trigger] tokens[at + 1
        + j]).kind == pieces.skip(1)[j].kind && tokens[at + 1 + j].text == pieces.skip(
        1,
    )[j].text by {
        assert(tokens[at + (1 + j)].kind == pieces[1 + j].kind);
    }
}

/// The state of an assembler whose interner holds what `interner` holds.
pub open spec fn knows_all(st: AssemblerState, interner: &StringInterner) -> bool {
    st.names == interner.names() && st.count == interner.count()
}

/// A number that is not above the limit is read back.
pub proof fn lemma_parse_integer(
    tokens: Seq<TokenView>,
    st: AssemblerState,
    gap: Gap,
    n: nat,
    max: u64,
)
    requires
        matches_at(tokens, st.pos, seq![integer(gap, n)]),
        n <= max,
    ensures
        parse_integer(tokens, st, max) == Ok::<(u64, AssemblerState), ErrorView>(
            (n as u64, behind(st, 1)),
        ),
{
    lemma_decimal_value(n);
    assert(tokens[st.pos + 0].kind == IRAssemblyTokenKind::Integer);
    assert(tokens[st.pos + 0].text == decimal(n));
}

/// A type is read back.
pub proof fn lemma_parse_type(tokens: Seq<TokenView>, st: AssemblerState, gap: Gap, ir_type: IRType)
    requires
        matches_at(tokens, st.pos, type_pieces(gap, ir_type)),
    ensures
        parse_ir_type(tokens, st) == Ok::<(IRType, AssemblerState), ErrorView>(
            (ir_type, behind(st, 4)),
        ),
{
    let pieces = type_pieces(gap, ir_type);
    assert(tokens[st.pos + 0].kind == pieces[0].kind);
    assert(tokens[st.pos + 1].kind == pieces[1].kind);
    assert(tokens[st.pos + 1].text == pieces[1].text);
    assert(tokens[st.pos + 2].kind == pieces[2].kind);
    assert(tokens[st.pos + 2].text == pieces[2].text);
    assert(tokens[st.pos + 3].kind == pieces[3].kind);
    let st1 = behind(st, 1);
    assert(matches_at(tokens, st1.pos, seq![integer(Gap::Glue, ir_type.size as nat)])) by {
        assert(tokens[st1.pos + 0] == tokens[st.pos + 1]);
    }
    lemma_parse_integer(tokens, st1, Gap::Glue, ir_type.size as nat, u64::MAX);
    let st2 = behind(st, 2);
    assert(matches_at(tokens, st2.pos, seq![integer(Gap::Space, ir_type.align as nat)])) by {
        assert(tokens[st2.pos + 0] == tokens[st.pos + 2]);
    }
    lemma_parse_integer(tokens, st2, Gap::Space, ir_type.align as nat, u64::MAX);
    assert(behind(st1, 1) == st2);
    assert(behind(st2, 1) == behind(st, 3));
    assert(advance(expecting(st, IRAssemblerExpected::Kind(IRAssemblyTokenKind::LParen)))
        == st1);
    let st3 = behind(st, 3);
    assert(advance(expecting(st3, IRAssemblerExpected::Kind(IRAssemblyTokenKind::RParen)))
        == behind(st, 4));
}

/// The name of a symbol that the interner knows is read back as the
/// symbol, and nothing is interned.
pub proof fn lemma_intern(token: TokenView, st: AssemblerState, interner: &StringInterner, symbol: Symbol)
    requires
        interner.wf(),
        interner.knows(symbol),
        knows_all(st, interner),
        token.text == interner.name_of(symbol),
    ensures
        intern(token, st) == Ok::<(Symbol, AssemblerState), ErrorView>((symbol, st)),
{
    lemma_name_of(interner, symbol);
}

/// A word that is the name of a symbol is read back as the symbol.
pub proof fn lemma_parse_symbol(
    tokens: Seq<TokenView>,
    st: AssemblerState,
    interner: &StringInterner,
    gap: Gap,
    symbol: Symbol,
)
    requires
        interner.wf(),
        interner.knows(symbol),
        knows_all(st, interner),
        matches_at(tokens, st.pos, seq![word(gap, interner.name_of(symbol))]),
    ensures
        parse_symbol(tokens, st) == Ok::<(Symbol, AssemblerState), ErrorView>(
            (symbol, behind(st, 1)),
        ),
{
    assert(tokens[st.pos + 0].kind == IRAssemblyTokenKind::Word);
    assert(tokens[st.pos + 0].text == interner.name_of(symbol));
    let next = advance(expecting(st, IRAssemblerExpected::Kind(IRAssemblyTokenKind::Word)));
    assert(next == behind(st, 1));
    lemma_intern(tokens[st.pos], next, interner, symbol);
}

/// A value is read back.
pub proof fn lemma_parse_value(
    tokens: Seq<TokenView>,
    st: AssemblerState,
    interner: &StringInterner,
    gap: Gap,
    value: IRValue,
)
    requires
        interner.wf(),
        interner.knows(value.id),
        knows_all(st, interner),
        matches_at(tokens, st.pos, value_pieces(interner, gap, value)),
    ensures
        parse_ir_value(tokens, st) == Ok::<(IRValue, AssemblerState), ErrorView>(
            (value, behind(st, 2)),
        ),
{
    let pieces = value_pieces(interner, gap, value);
    assert(tokens[st.pos + 0].kind == pieces[0].kind);
    assert(tokens[st.pos + 1].kind == pieces[1].kind);
    assert(tokens[st.pos + 1].text == pieces[1].text);
    let st1 = behind(st, 1);
    assert(advance(expecting(st, IRAssemblerExpected::Kind(IRAssemblyTokenKind::Percent)))
        == st1);
    assert(matches_at(tokens, st1.pos, seq![word(Gap::Glue, interner.name_of(value.id))])) by {
        assert(tokens[st1.pos + 0] == tokens[st.pos + 1]);
    }
    lemma_parse_symbol(tokens, st1, interner, Gap::Glue, value.id);
    assert(behind(st1, 1) == behind(st, 2));
}

/// Several values are read back.
pub proof fn lemma_parse_values(
    tokens: Seq<TokenView>,
    st: AssemblerState,
    interner: &StringInterner,
    values: Seq<IRValue>,
)
    requires
        interner.wf(),
        forall|i: int| 0 <= i < values.len() ==> interner.knows((#[trigger] values[i]).id),
        knows_all(st, interner),
        matches_at(tokens, st.pos, values_pieces(interner, values)),
    ensures
        values_pieces(interner, values).len() == 2 * values.len(),
        parse_ir_values(tokens, st, values.len()) == Ok::<
            (Seq<IRValue>, AssemblerState),
            ErrorView,
        >((values, after(st, 2 * values.len() as int))),
    decreases values.len(),
{
    if values.len() == 0 {
        assert(values =~= Seq::<IRValue>::empty());
    } else {
        let firsts = values.drop_last();
        let a = values_pieces(interner, firsts);
        let b = value_pieces(interner, Gap::Space, values.last());
        lemma_matches_split(tokens, st.pos, a, b);
        assert forall|i: int| 0 <= i < firsts.len() implies interner.knows(
            (#[trigger] firsts[i]).id,
        ) by {
            assert(firsts[i] == values[i]);
        }
        lemma_parse_values(tokens, st, interner, firsts);
        let st1 = after(st, 2 * firsts.len() as int);
        assert(knows_all(st1, interner));
        lemma_parse_value(tokens, st1, interner, Gap::Space, values.last());
        assert(behind(st1, 2) == behind(st, 2 * values.len() as int));
        assert(firsts.push(values.last()) =~= values);
    }
}

/// Several bytes are read back.
pub proof fn lemma_parse_bytes(tokens: Seq<TokenView>, st: AssemblerState, bytes: Seq<u8>)
    requires
        matches_at(tokens, st.pos, bytes_pieces(bytes)),
    ensures
        bytes_pieces(bytes).len() == bytes.len(),
        parse_bytes(tokens, st, bytes.len()) == Ok::<(Seq<u8>, AssemblerState), ErrorView>(
            (bytes, after(st, bytes.len() as int)),
        ),
    decreases bytes.len(),
{
    if bytes.len() == 0 {
        assert(bytes =~= Seq::<u8>::empty());
    } else {
        let firsts = bytes.drop_last();
        let a = bytes_pieces(firsts);
        let b = seq![integer(Gap::Space, bytes.last() as nat)];
        assert(bytes_pieces(bytes) =~= a + b);
        lemma_matches_split(tokens, st.pos, a, b);
        lemma_parse_bytes(tokens, st, firsts);
        let st1 = after(st, firsts.len() as int);
        lemma_parse_integer(tokens, st1, Gap::Space, bytes.last() as nat, u8::MAX as u64);
        assert(behind(st1, 1) == behind(st, bytes.len() as int));
        assert(firsts.push(bytes.last()) =~= bytes);
    }
}

/// A reference to a label whose name is a word or a number is read back.
pub proof fn lemma_parse_label_ref(
    tokens: Seq<TokenView>,
    st: AssemblerState,
    interner: &StringInterner,
    label: Symbol,
)
    requires
        interner.wf(),
        interner.knows(label),
        knows_all(st, interner),
        matches_at(tokens, st.pos, seq![label_ref_piece(interner, label)]),
    ensures
        parse_label_ref(tokens, st) == Ok::<(Symbol, AssemblerState), ErrorView>(
            (label, behind(st, 1)),
        ),
{
    let piece = label_ref_piece(interner, label);
    assert(tokens[st.pos + 0].kind == piece.kind);
    assert(tokens[st.pos + 0].text == piece.text);
    let tried = expecting(st, IRAssemblerExpected::Kind(IRAssemblyTokenKind::Word));
    if piece.kind == IRAssemblyTokenKind::Word {
        lemma_intern(tokens[st.pos], advance(tried), interner, label);
        assert(advance(tried) == behind(st, 1));
    } else {
        let next = advance(expecting(tried, IRAssemblerExpected::Kind(IRAssemblyTokenKind::Integer)));
        assert(next == behind(st, 1));
        lemma_intern(tokens[st.pos], next, interner, label);
    }
}

/// Where the next token is the word at the index `i` of `keywords`, and
/// none of the words before it from the index `from` on, that word is
/// chosen.
pub proof fn lemma_choose_keyword(
    tokens: Seq<TokenView>,
    st: AssemblerState,
    keywords: Seq<&'static str>,
    from: int,
    i: int,
)
    requires
        0 <= from <= i < keywords.len(),
        0 <= st.pos < tokens.len(),
        tokens[st.pos].kind == IRAssemblyTokenKind::Word,
        tokens[st.pos].text == keywords[i]@,
        forall|j: int| from <= j < i ==> (#[trigger] keywords[j])@ != keywords[i]@,
    ensures
        choose_keyword(tokens, st, keywords, from) == Ok::<(int, AssemblerState), ErrorView>(
            (i, behind(st, 1)),
        ),
    decreases i - from,
{
    let tried = expecting(st, IRAssemblerExpected::Keyword(keywords[from]));
    if from < i {
        assert(keywords[from]@ != keywords[i]@);
        lemma_choose_keyword(tokens, tried, keywords, from + 1, i);
        assert(behind(tried, 1) == behind(st, 1));
    } else {
        assert(advance(tried) == behind(st, 1));
    }
}

/// Where tokens are pieces, the tokens from one place among them to
/// another are the pieces from the one place to the other.
pub proof fn lemma_matches_range(
    tokens: Seq<TokenView>,
    at: int,
    pieces: Seq<Piece>,
    from: int,
    to: int,
)
    requires
        matches_at(tokens, at, pieces),
        0 <= from <= to <= pieces.len(),
    ensures
        matches_at(tokens, at + from, pieces.subrange(from, to)),
{
    let part = pieces.subrange(from, to);
    assert forall|j: int| 0 <= j < part.len() implies (#[trigger] tokens[at + from + j]).kind
        == part[j].kind && tokens[at + from + j].text == part[j].text by {
        assert(tokens[at + (from + j)].kind == pieces[from + j].kind);
    }
}

/// The word with which a computation begins is chosen among the words of
/// the computations.
pub proof fn lemma_comp_keyword(tokens: Seq<TokenView>, st: AssemblerState, i: int)
    requires
        0 <= i < 12,
        0 <= st.pos < tokens.len(),
        tokens[st.pos].kind == IRAssemblyTokenKind::Word,
        tokens[st.pos].text == comp_keywords()[i]@,
    ensures
        choose_keyword(tokens, st, comp_keywords(), 0) == Ok::<(int, AssemblerState), ErrorView>(
            (i, behind(st, 1)),
        ),
{
    assert forall|j: int| 0 <= j < i implies (#[trigger] comp_keywords()[j])@
        != comp_keywords()[i]@ by {
        lemma_comp_keywords_differ(i, j);
    }
    lemma_choose_keyword(tokens, st, comp_keywords(), 0, i);
}

/// The place of the word with which a computation begins among the words
/// of the computations.
pub open spec fn comp_index(kind: IRCompKindView) -> int {
    match kind {
        IRCompKindView::FunctionCall { .. } => 0,
        IRCompKindView::BinaryOperation(_) => 1,
        IRCompKindView::UnaryOperation(_) => 2,
        IRCompKindView::Constant(_) => 3,
        IRCompKindView::Alloc(_) => 4,
        IRCompKindView::Store(_, _, _) => 5,
        IRCompKindView::Load(_, _) => 6,
        IRCompKindView::OffsetStore(_, _, _, _) => 7,
        IRCompKindView::OffsetLoad(_, _, _) => 8,
        IRCompKindView::Return(_) => 9,
        IRCompKindView::If(_, _) => 10,
        IRCompKindView::Jmp(_) => 11,
    }
}

/// The pieces of a computation begin with its word.
pub proof fn lemma_comp_head(
    tokens: Seq<TokenView>,
    st: AssemblerState,
    interner: &StringInterner,
    gap: Gap,
    kind: IRCompKindView,
)
    requires
        matches_at(tokens, st.pos, comp_kind_pieces(interner, gap, kind)),
    ensures
        comp_kind_pieces(interner, gap, kind).len() >= 2,
        choose_keyword(tokens, st, comp_keywords(), 0) == Ok::<(int, AssemblerState), ErrorView>(
            (comp_index(kind), behind(st, 1)),
        ),
        matches_at(tokens, st.pos + 1, comp_kind_pieces(interner, gap, kind).skip(1)),
{
    let pieces = comp_kind_pieces(interner, gap, kind);
    assert(pieces.len() >= 2) by {
        match kind {
            IRCompKindView::Alloc(ir_type) => {
                assert(type_pieces(Gap::Space, ir_type).len() == 4);
            },
            IRCompKindView::Store(ir_type, _, _) => {
                assert(type_pieces(Gap::Space, ir_type).len() == 4);
            },
            IRCompKindView::Load(ir_type, _) => {
                assert(type_pieces(Gap::Space, ir_type).len() == 4);
            },
            IRCompKindView::OffsetStore(ir_type, _, _, _) => {
                assert(type_pieces(Gap::Space, ir_type).len() == 4);
            },
            IRCompKindView::OffsetLoad(ir_type, _, _) => {
                assert(type_pieces(Gap::Space, ir_type).len() == 4);
            },
            IRCompKindView::Return(value) => {
                assert(value_pieces(interner, Gap::Space, value).len() == 2);
            },
            IRCompKindView::If(value, _) => {
                assert(value_pieces(interner, Gap::Space, value).len() == 2);
            },
            _ => {},
        }
    }
    lemma_matches_first(tokens, st.pos, pieces);
    assert(pieces[0].kind == IRAssemblyTokenKind::Word);
    assert(pieces[0].text == comp_keywords()[comp_index(kind)]@);
    lemma_comp_keyword(tokens, st, comp_index(kind));
}

/// A call is read back.
pub proof fn lemma_parse_call(
    tokens: Seq<TokenView>,
    st: AssemblerState,
    interner: &StringInterner,
    name: Symbol,
    args: Seq<IRValue>,
)
    requires
        interner.wf(),
        knows_all(st, interner),
        interner.knows(name),
        forall|i: int| 0 <= i < args.len() ==> interner.knows((#[trigger] args[i]).id),
        args.len() <= u64::MAX,
        matches_at(
            tokens,
            st.pos,
            seq![word(Gap::Space, interner.name_of(name)), integer(Gap::Space, args.len())]
                + values_pieces(interner, args),
        ),
    ensures
        parse_call(tokens, st) == Ok::<(IRCompKindView, AssemblerState), ErrorView>(
            (IRCompKindView::FunctionCall { name, args }, behind(st, 2 + 2 * args.len() as int)),
        ),
{
    let head = seq![word(Gap::Space, interner.name_of(name)), integer(Gap::Space, args.len())];
    let tail = values_pieces(interner, args);
    lemma_matches_split(tokens, st.pos, head, tail);
    lemma_matches_range(tokens, st.pos, head, 0, 1);
    assert(head.subrange(0, 1) =~= seq![word(Gap::Space, interner.name_of(name))]);
    lemma_parse_symbol(tokens, st, interner, Gap::Space, name);
    lemma_matches_range(tokens, st.pos, head, 1, 2);
    assert(head.subrange(1, 2) =~= seq![integer(Gap::Space, args.len())]);
    let st1 = behind(st, 1);
    lemma_parse_integer(tokens, st1, Gap::Space, args.len(), u64::MAX);
    let st2 = behind(st, 2);
    assert(behind(st1, 1) == st2);
    lemma_parse_values(tokens, st2, interner, args);
    assert(after(st2, 2 * args.len() as int) == behind(st, 2 + 2 * args.len() as int));
}

/// A constant is read back.
pub proof fn lemma_parse_constant(tokens: Seq<TokenView>, st: AssemblerState, bytes: Seq<u8>)
    requires
        bytes.len() <= u64::MAX,
        matches_at(tokens, st.pos, seq![integer(Gap::Space, bytes.len())] + bytes_pieces(bytes)),
    ensures
        parse_constant(tokens, st) == Ok::<(IRCompKindView, AssemblerState), ErrorView>(
            (IRCompKindView::Constant(bytes), behind(st, 1 + bytes.len() as int)),
        ),
{
    let head = seq![integer(Gap::Space, bytes.len())];
    lemma_matches_split(tokens, st.pos, head, bytes_pieces(bytes));
    lemma_parse_integer(tokens, st, Gap::Space, bytes.len(), u64::MAX);
    let st1 = behind(st, 1);
    lemma_parse_bytes(tokens, st1, bytes);
    assert(after(st1, bytes.len() as int) == behind(st, 1 + bytes.len() as int));
}

/// A binary operation is read back.
pub proof fn lemma_parse_binary(
    tokens: Seq<TokenView>,
    st: AssemblerState,
    interner: &StringInterner,
    operation: IRCompBinaryOperation,
)
    requires
        interner.wf(),
        knows_all(st, interner),
        interner.knows(operation.left_operand.id),
        interner.knows(operation.right_operand.id),
        matches_at(
            tokens,
            st.pos,
            seq![word(Gap::Space, binary_operator_text(operation.kind))] + value_pieces(
                interner,
                Gap::Space,
                operation.left_operand,
            ) + value_pieces(interner, Gap::Space, operation.right_operand),
        ),
    ensures
        parse_binary_operation(tokens, st) == Ok::<(IRCompKindView, AssemblerState), ErrorView>(
            (IRCompKindView::BinaryOperation(operation), behind(st, 5)),
        ),
{
    let head = seq![word(Gap::Space, binary_operator_text(operation.kind))];
    let left = value_pieces(interner, Gap::Space, operation.left_operand);
    let right = value_pieces(interner, Gap::Space, operation.right_operand);
    lemma_matches_split(tokens, st.pos, head + left, right);
    lemma_matches_split(tokens, st.pos, head, left);
    lemma_matches_first(tokens, st.pos, head);
    let words = binary_operators().map_values(
        |o: (&'static str, crate::ir::comp::IRCompBinaryOperationKind)| o.0,
    );
    let i = binary_index(operation.kind);
    lemma_binary_index(operation.kind);
    assert(words[i]@ == binary_operator_text(operation.kind));
    assert forall|j: int| 0 <= j < i implies (#[trigger] words[j])@ != words[i]@ by {
        lemma_binary_operators_differ(i, j);
    }
    lemma_choose_keyword(tokens, st, words, 0, i);
    let st1 = behind(st, 1);
    lemma_parse_value(tokens, st1, interner, Gap::Space, operation.left_operand);
    let st2 = behind(st, 3);
    assert(behind(st1, 2) == st2);
    lemma_parse_value(tokens, st2, interner, Gap::Space, operation.right_operand);
    assert(behind(st2, 2) == behind(st, 5));
}

/// A unary operation is read back.
pub proof fn lemma_parse_unary(
    tokens: Seq<TokenView>,
    st: AssemblerState,
    interner: &StringInterner,
    operation: IRCompUnaryOperation,
)
    requires
        interner.wf(),
        knows_all(st, interner),
        interner.knows(operation.operand.id),
        matches_at(
            tokens,
            st.pos,
            seq![word(Gap::Space, unary_operator_text(operation.kind))] + value_pieces(
                interner,
                Gap::Space,
                operation.operand,
            ),
        ),
    ensures
        parse_unary_operation(tokens, st) == Ok::<(IRCompKindView, AssemblerState), ErrorView>(
            (IRCompKindView::UnaryOperation(operation), behind(st, 3)),
        ),
{
    let head = seq![word(Gap::Space, unary_operator_text(operation.kind))];
    let operand = value_pieces(interner, Gap::Space, operation.operand);
    lemma_matches_split(tokens, st.pos, head, operand);
    lemma_matches_first(tokens, st.pos, head);
    let words = unary_operators().map_values(
        |o: (&'static str, crate::ir::comp::IRCompUnaryOperationKind)| o.0,
    );
    let i = unary_index(operation.kind);
    lemma_unary_index(operation.kind);
    assert(words[i]@ == unary_operator_text(operation.kind));
    assert forall|j: int| 0 <= j < i implies (#[trigger] words[j])@ != words[i]@ by {
        lemma_unary_operators_differ(i, j);
    }
    lemma_choose_keyword(tokens, st, words, 0, i);
    let st1 = behind(st, 1);
    lemma_parse_value(tokens, st1, interner, Gap::Space, operation.operand);
    assert(behind(st1, 2) == behind(st, 3));
}

/// A store is read back.
pub proof fn lemma_parse_store(
    tokens: Seq<TokenView>,
    st: AssemblerState,
    interner: &StringInterner,
    ir_type: IRType,
    location: IRValue,
    value: IRValue,
    offset: Option<u64>,
)
    requires
        interner.wf(),
        knows_all(st, interner),
        interner.knows(location.id),
        interner.knows(value.id),
        matches_at(
            tokens,
            st.pos,
            type_pieces(Gap::Space, ir_type) + value_pieces(interner, Gap::Space, location)
                + value_pieces(interner, Gap::Space, value) + match offset {
                Some(offset) => seq![integer(Gap::Space, offset as nat)],
                None => Seq::empty(),
            },
        ),
    ensures
        parse_store(tokens, st, offset is Some) == Ok::<(IRCompKindView, AssemblerState), ErrorView>(
            match offset {
                Some(offset) => (
                    IRCompKindView::OffsetStore(ir_type, location, value, offset),
                    behind(st, 9),
                ),
                None => (IRCompKindView::Store(ir_type, location, value), behind(st, 8)),
            },
        ),
{
    let a = type_pieces(Gap::Space, ir_type);
    let b = value_pieces(interner, Gap::Space, location);
    let c = value_pieces(interner, Gap::Space, value);
    let d = match offset {
        Some(offset) => seq![integer(Gap::Space, offset as nat)],
        None => Seq::<Piece>::empty(),
    };
    lemma_matches_split(tokens, st.pos, a + b + c, d);
    lemma_matches_split(tokens, st.pos, a + b, c);
    lemma_matches_split(tokens, st.pos, a, b);
    lemma_parse_type(tokens, st, Gap::Space, ir_type);
    let st1 = behind(st, 4);
    lemma_parse_value(tokens, st1, interner, Gap::Space, location);
    let st2 = behind(st, 6);
    assert(behind(st1, 2) == st2);
    lemma_parse_value(tokens, st2, interner, Gap::Space, value);
    let st3 = behind(st, 8);
    assert(behind(st2, 2) == st3);
    if let Some(offset) = offset {
        lemma_parse_integer(tokens, st3, Gap::Space, offset as nat, u64::MAX);
        assert(behind(st3, 1) == behind(st, 9));
    }
}

/// A load is read back.
pub proof fn lemma_parse_load(
    tokens: Seq<TokenView>,
    st: AssemblerState,
    interner: &StringInterner,
    ir_type: IRType,
    location: IRValue,
    offset: Option<u64>,
)
    requires
        interner.wf(),
        knows_all(st, interner),
        interner.knows(location.id),
        matches_at(
            tokens,
            st.pos,
            type_pieces(Gap::Space, ir_type) + value_pieces(interner, Gap::Space, location)
                + match offset {
                Some(offset) => seq![integer(Gap::Space, offset as nat)],
                None => Seq::empty(),
            },
        ),
    ensures
        parse_load(tokens, st, offset is Some) == Ok::<(IRCompKindView, AssemblerState), ErrorView>(
            match offset {
                Some(offset) => (IRCompKindView::OffsetLoad(ir_type, location, offset), behind(st, 7)),
                None => (IRCompKindView::Load(ir_type, location), behind(st, 6)),
            },
        ),
{
    let a = type_pieces(Gap::Space, ir_type);
    let b = value_pieces(interner, Gap::Space, location);
    let d = match offset {
        Some(offset) => seq![integer(Gap::Space, offset as nat)],
        None => Seq::<Piece>::empty(),
    };
    lemma_matches_split(tokens, st.pos, a + b, d);
    lemma_matches_split(tokens, st.pos, a, b);
    lemma_parse_type(tokens, st, Gap::Space, ir_type);
    let st1 = behind(st, 4);
    lemma_parse_value(tokens, st1, interner, Gap::Space, location);
    let st2 = behind(st, 6);
    assert(behind(st1, 2) == st2);
    if let Some(offset) = offset {
        lemma_parse_integer(tokens, st2, Gap::Space, offset as nat, u64::MAX);
        assert(behind(st2, 1) == behind(st, 7));
    }
}

/// Whether the counts in the computation can be written as numbers of 64
/// bits.
pub open spec fn comp_sized(kind: IRCompKindView) -> bool {
    match kind {
        IRCompKindView::FunctionCall { name, args } => args.len() <= u64::MAX,
        IRCompKindView::Constant(bytes) => bytes.len() <= u64::MAX,
        _ => true,
    }
}

/// A call, with its word, is read back.
proof fn lemma_comp_call(
    tokens: Seq<TokenView>,
    st: AssemblerState,
    interner: &StringInterner,
    gap: Gap,
    kind: IRCompKindView,
)
    requires
        interner.wf(),
        knows_all(st, interner),
        comp_known(interner, IRCompView { kind, id: None }),
        comp_sized(kind),
        matches_at(tokens, st.pos, comp_kind_pieces(interner, gap, kind)),
        kind is FunctionCall,
    ensures
        parse_ir_comp(tokens, st) == Ok::<(IRCompKindView, AssemblerState), ErrorView>(
            (kind, behind(st, comp_kind_pieces(interner, gap, kind).len() as int)),
        ),
{
    reveal(parse_ir_comp);
    lemma_comp_head(tokens, st, interner, gap, kind);
    let st1 = behind(st, 1);
    let rest = comp_kind_pieces(interner, gap, kind).skip(1);
    match kind {
        IRCompKindView::FunctionCall { name, args } => {
            assert(rest =~= seq![
                word(Gap::Space, interner.name_of(name)),
                integer(Gap::Space, args.len()),
            ] + values_pieces(interner, args));
            lemma_parse_call(tokens, st1, interner, name, args);
            lemma_matches_range(tokens, st1.pos, rest, 2, rest.len() as int);
            assert(rest.subrange(2, rest.len() as int) =~= values_pieces(interner, args));
            lemma_parse_values(tokens, behind(st1, 2), interner, args);
            assert(behind(st1, 2 + 2 * args.len() as int) == behind(st, rest.len() as int + 1));
        },
        _ => {},
    }
}

/// A binary operation, with its word, is read back.
proof fn lemma_comp_binary(
    tokens: Seq<TokenView>,
    st: AssemblerState,
    interner: &StringInterner,
    gap: Gap,
    kind: IRCompKindView,
)
    requires
        interner.wf(),
        knows_all(st, interner),
        comp_known(interner, IRCompView { kind, id: None }),
        comp_sized(kind),
        matches_at(tokens, st.pos, comp_kind_pieces(interner, gap, kind)),
        kind is BinaryOperation,
    ensures
        parse_ir_comp(tokens, st) == Ok::<(IRCompKindView, AssemblerState), ErrorView>(
            (kind, behind(st, comp_kind_pieces(interner, gap, kind).len() as int)),
        ),
{
    reveal(parse_ir_comp);
    lemma_comp_head(tokens, st, interner, gap, kind);
    let st1 = behind(st, 1);
    let rest = comp_kind_pieces(interner, gap, kind).skip(1);
    match kind {
        IRCompKindView::BinaryOperation(operation) => {
            assert(rest =~= seq![word(Gap::Space, binary_operator_text(operation.kind))]
                + value_pieces(interner, Gap::Space, operation.left_operand) + value_pieces(
                interner,
                Gap::Space,
                operation.right_operand,
            ));
            lemma_parse_binary(tokens, st1, interner, operation);
            assert(behind(st1, 5) == behind(st, 6));
        },
        _ => {},
    }
}

/// A unary operation, with its word, is read back.
proof fn lemma_comp_unary(
    tokens: Seq<TokenView>,
    st: AssemblerState,
    interner: &StringInterner,
    gap: Gap,
    kind: IRCompKindView,
)
    requires
        interner.wf(),
        knows_all(st, interner),
        comp_known(interner, IRCompView { kind, id: None }),
        comp_sized(kind),
        matches_at(tokens, st.pos, comp_kind_pieces(interner, gap, kind)),
        kind is UnaryOperation,
    ensures
        parse_ir_comp(tokens, st) == Ok::<(IRCompKindView, AssemblerState), ErrorView>(
            (kind, behind(st, comp_kind_pieces(interner, gap, kind).len() as int)),
        ),
{
    reveal(parse_ir_comp);
    lemma_comp_head(tokens, st, interner, gap, kind);
    let st1 = behind(st, 1);
    let rest = comp_kind_pieces(interner, gap, kind).skip(1);
    match kind {
        IRCompKindView::UnaryOperation(operation) => {
            assert(rest =~= seq![word(Gap::Space, unary_operator_text(operation.kind))]
                + value_pieces(interner, Gap::Space, operation.operand));
            lemma_parse_unary(tokens, st1, interner, operation);
            assert(behind(st1, 3) == behind(st, 4));
        },
        _ => {},
    }
}

/// A constant, with its word, is read back.
proof fn lemma_comp_constant(
    tokens: Seq<TokenView>,
    st: AssemblerState,
    interner: &StringInterner,
    gap: Gap,
    kind: IRCompKindView,
)
    requires
        interner.wf(),
        knows_all(st, interner),
        comp_known(interner, IRCompView { kind, id: None }),
        comp_sized(kind),
        matches_at(tokens, st.pos, comp_kind_pieces(interner, gap, kind)),
        kind is Constant,
    ensures
        parse_ir_comp(tokens, st) == Ok::<(IRCompKindView, AssemblerState), ErrorView>(
            (kind, behind(st, comp_kind_pieces(interner, gap, kind).len() as int)),
        ),
{
    reveal(parse_ir_comp);
    lemma_comp_head(tokens, st, interner, gap, kind);
    let st1 = behind(st, 1);
    let rest = comp_kind_pieces(interner, gap, kind).skip(1);
    match kind {
        IRCompKindView::Constant(bytes) => {
            assert(rest =~= seq![integer(Gap::Space, bytes.len())] + bytes_pieces(bytes));
            lemma_parse_constant(tokens, st1, bytes);
            lemma_matches_range(tokens, st1.pos, rest, 1, rest.len() as int);
            assert(rest.subrange(1, rest.len() as int) =~= bytes_pieces(bytes));
            lemma_parse_bytes(tokens, behind(st1, 1), bytes);
            assert(behind(st1, 1 + bytes.len() as int) == behind(st, rest.len() as int + 1));
        },
        _ => {},
    }
}

/// An allocation, with its word, is read back.
proof fn lemma_comp_alloc(
    tokens: Seq<TokenView>,
    st: AssemblerState,
    interner: &StringInterner,
    gap: Gap,
    kind: IRCompKindView,
)
    requires
        interner.wf(),
        knows_all(st, interner),
        comp_known(interner, IRCompView { kind, id: None }),
        comp_sized(kind),
        matches_at(tokens, st.pos, comp_kind_pieces(interner, gap, kind)),
        kind is Alloc,
    ensures
        parse_ir_comp(tokens, st) == Ok::<(IRCompKindView, AssemblerState), ErrorView>(
            (kind, behind(st, comp_kind_pieces(interner, gap, kind).len() as int)),
        ),
{
    reveal(parse_ir_comp);
    lemma_comp_head(tokens, st, interner, gap, kind);
    let st1 = behind(st, 1);
    let rest = comp_kind_pieces(interner, gap, kind).skip(1);
    match kind {
        IRCompKindView::Alloc(ir_type) => {
            assert(rest =~= type_pieces(Gap::Space, ir_type));
            lemma_parse_type(tokens, st1, Gap::Space, ir_type);
            assert(behind(st1, 4) == behind(st, 5));
        },
        _ => {},
    }
}

/// A store, with its word, is read back.
proof fn lemma_comp_store(
    tokens: Seq<TokenView>,
    st: AssemblerState,
    interner: &StringInterner,
    gap: Gap,
    kind: IRCompKindView,
)
    requires
        interner.wf(),
        knows_all(st, interner),
        comp_known(interner, IRCompView { kind, id: None }),
        comp_sized(kind),
        matches_at(tokens, st.pos, comp_kind_pieces(interner, gap, kind)),
        kind is Store,
    ensures
        parse_ir_comp(tokens, st) == Ok::<(IRCompKindView, AssemblerState), ErrorView>(
            (kind, behind(st, comp_kind_pieces(interner, gap, kind).len() as int)),
        ),
{
    reveal(parse_ir_comp);
    lemma_comp_head(tokens, st, interner, gap, kind);
    let st1 = behind(st, 1);
    let rest = comp_kind_pieces(interner, gap, kind).skip(1);
    match kind {
        IRCompKindView::Store(ir_type, location, value) => {
            assert(rest =~= type_pieces(Gap::Space, ir_type) + value_pieces(
                interner,
                Gap::Space,
                location,
            ) + value_pieces(interner, Gap::Space, value) + Seq::<Piece>::empty());
            lemma_parse_store(tokens, st1, interner, ir_type, location, value, None);
            assert(behind(st1, 8) == behind(st, 9));
        },
        _ => {},
    }
}

/// A load, with its word, is read back.
proof fn lemma_comp_load(
    tokens: Seq<TokenView>,
    st: AssemblerState,
    interner: &StringInterner,
    gap: Gap,
    kind: IRCompKindView,
)
    requires
        interner.wf(),
        knows_all(st, interner),
        comp_known(interner, IRCompView { kind, id: None }),
        comp_sized(kind),
        matches_at(tokens, st.pos, comp_kind_pieces(interner, gap, kind)),
        kind is Load,
    ensures
        parse_ir_comp(tokens, st) == Ok::<(IRCompKindView, AssemblerState), ErrorView>(
            (kind, behind(st, comp_kind_pieces(interner, gap, kind).len() as int)),
        ),
{
    reveal(parse_ir_comp);
    lemma_comp_head(tokens, st, interner, gap, kind);
    let st1 = behind(st, 1);
    let rest = comp_kind_pieces(interner, gap, kind).skip(1);
    match kind {
        IRCompKindView::Load(ir_type, location) => {
            assert(rest =~= type_pieces(Gap::Space, ir_type) + value_pieces(
                interner,
                Gap::Space,
                location,
            ) + Seq::<Piece>::empty());
            lemma_parse_load(tokens, st1, interner, ir_type, location, None);
            assert(behind(st1, 6) == behind(st, 7));
        },
        _ => {},
    }
}

/// A store at an offset, with its word, is read back.
proof fn lemma_comp_offset_store(
    tokens: Seq<TokenView>,
    st: AssemblerState,
    interner: &StringInterner,
    gap: Gap,
    kind: IRCompKindView,
)
    requires
        interner.wf(),
        knows_all(st, interner),
        comp_known(interner, IRCompView { kind, id: None }),
        comp_sized(kind),
        matches_at(tokens, st.pos, comp_kind_pieces(interner, gap, kind)),
        kind is OffsetStore,
    ensures
        parse_ir_comp(tokens, st) == Ok::<(IRCompKindView, AssemblerState), ErrorView>(
            (kind, behind(st, comp_kind_pieces(interner, gap, kind).len() as int)),
        ),
{
    reveal(parse_ir_comp);
    lemma_comp_head(tokens, st, interner, gap, kind);
    let st1 = behind(st, 1);
    let rest = comp_kind_pieces(interner, gap, kind).skip(1);
    match kind {
        IRCompKindView::OffsetStore(ir_type, location, value, offset) => {
            assert(rest =~= type_pieces(Gap::Space, ir_type) + value_pieces(
                interner,
                Gap::Space,
                location,
            ) + value_pieces(interner, Gap::Space, value) + seq![
                integer(Gap::Space, offset as nat),
            ]);
            lemma_parse_store(tokens, st1, interner, ir_type, location, value, Some(offset));
            assert(behind(st1, 9) == behind(st, 10));
        },
        _ => {},
    }
}

/// A load at an offset, with its word, is read back.
proof fn lemma_comp_offset_load(
    tokens: Seq<TokenView>,
    st: AssemblerState,
    interner: &StringInterner,
    gap: Gap,
    kind: IRCompKindView,
)
    requires
        interner.wf(),
        knows_all(st, interner),
        comp_known(interner, IRCompView { kind, id: None }),
        comp_sized(kind),
        matches_at(tokens, st.pos, comp_kind_pieces(interner, gap, kind)),
        kind is OffsetLoad,
    ensures
        parse_ir_comp(tokens, st) == Ok::<(IRCompKindView, AssemblerState), ErrorView>(
            (kind, behind(st, comp_kind_pieces(interner, gap, kind).len() as int)),
        ),
{
    reveal(parse_ir_comp);
    lemma_comp_head(tokens, st, interner, gap, kind);
    let st1 = behind(st, 1);
    let rest = comp_kind_pieces(interner, gap, kind).skip(1);
    match kind {
        IRCompKindView::OffsetLoad(ir_type, location, offset) => {
            assert(rest =~= type_pieces(Gap::Space, ir_type) + value_pieces(
                interner,
                Gap::Space,
                location,
            ) + seq![integer(Gap::Space, offset as nat)]);
            lemma_parse_load(tokens, st1, interner, ir_type, location, Some(offset));
            assert(behind(st1, 7) == behind(st, 8));
        },
        _ => {},
    }
}

/// A return, with its word, is read back.
proof fn lemma_comp_return(
    tokens: Seq<TokenView>,
    st: AssemblerState,
    interner: &StringInterner,
    gap: Gap,
    kind: IRCompKindView,
)
    requires
        interner.wf(),
        knows_all(st, interner),
        comp_known(interner, IRCompView { kind, id: None }),
        comp_sized(kind),
        matches_at(tokens, st.pos, comp_kind_pieces(interner, gap, kind)),
        kind is Return,
    ensures
        parse_ir_comp(tokens, st) == Ok::<(IRCompKindView, AssemblerState), ErrorView>(
            (kind, behind(st, comp_kind_pieces(interner, gap, kind).len() as int)),
        ),
{
    reveal(parse_ir_comp);
    lemma_comp_head(tokens, st, interner, gap, kind);
    let st1 = behind(st, 1);
    let rest = comp_kind_pieces(interner, gap, kind).skip(1);
    match kind {
        IRCompKindView::Return(value) => {
            assert(rest =~= value_pieces(interner, Gap::Space, value));
            lemma_parse_value(tokens, st1, interner, Gap::Space, value);
            assert(behind(st1, 2) == behind(st, 3));
        },
        _ => {},
    }
}

/// A conditional jump, with its word, is read back.
proof fn lemma_comp_if(
    tokens: Seq<TokenView>,
    st: AssemblerState,
    interner: &StringInterner,
    gap: Gap,
    kind: IRCompKindView,
)
    requires
        interner.wf(),
        knows_all(st, interner),
        comp_known(interner, IRCompView { kind, id: None }),
        comp_sized(kind),
        matches_at(tokens, st.pos, comp_kind_pieces(interner, gap, kind)),
        kind is If,
    ensures
        parse_ir_comp(tokens, st) == Ok::<(IRCompKindView, AssemblerState), ErrorView>(
            (kind, behind(st, comp_kind_pieces(interner, gap, kind).len() as int)),
        ),
{
    reveal(parse_ir_comp);
    lemma_comp_head(tokens, st, interner, gap, kind);
    let st1 = behind(st, 1);
    let rest = comp_kind_pieces(interner, gap, kind).skip(1);
    match kind {
        IRCompKindView::If(value, label) => {
            let a = value_pieces(interner, Gap::Space, value);
            let b = seq![label_ref_piece(interner, label)];
            assert(rest =~= a + b);
            lemma_matches_split(tokens, st1.pos, a, b);
            lemma_parse_value(tokens, st1, interner, Gap::Space, value);
            let st2 = behind(st1, 2);
            lemma_parse_label_ref(tokens, st2, interner, label);
            assert(behind(st2, 1) == behind(st, 4));
        },
        _ => {},
    }
}

/// A jump, with its word, is read back.
proof fn lemma_comp_jmp(
    tokens: Seq<TokenView>,
    st: AssemblerState,
    interner: &StringInterner,
    gap: Gap,
    kind: IRCompKindView,
)
    requires
        interner.wf(),
        knows_all(st, interner),
        comp_known(interner, IRCompView { kind, id: None }),
        comp_sized(kind),
        matches_at(tokens, st.pos, comp_kind_pieces(interner, gap, kind)),
        kind is Jmp,
    ensures
        parse_ir_comp(tokens, st) == Ok::<(IRCompKindView, AssemblerState), ErrorView>(
            (kind, behind(st, comp_kind_pieces(interner, gap, kind).len() as int)),
        ),
{
    reveal(parse_ir_comp);
    lemma_comp_head(tokens, st, interner, gap, kind);
    let st1 = behind(st, 1);
    let rest = comp_kind_pieces(interner, gap, kind).skip(1);
    match kind {
        IRCompKindView::Jmp(label) => {
            assert(rest =~= seq![label_ref_piece(interner, label)]);
            lemma_parse_label_ref(tokens, st1, interner, label);
            assert(behind(st1, 1) == behind(st, 2));
        },
        _ => {},
    }
}

/// A computation without a name is read back.
pub proof fn lemma_parse_comp_kind(
    tokens: Seq<TokenView>,
    st: AssemblerState,
    interner: &StringInterner,
    gap: Gap,
    kind: IRCompKindView,
)
    requires
        interner.wf(),
        knows_all(st, interner),
        comp_known(interner, IRCompView { kind, id: None }),
        comp_sized(kind),
        matches_at(tokens, st.pos, comp_kind_pieces(interner, gap, kind)),
    ensures
        parse_ir_comp(tokens, st) == Ok::<(IRCompKindView, AssemblerState), ErrorView>(
            (kind, behind(st, comp_kind_pieces(interner, gap, kind).len() as int)),
        ),
{
    match kind {
        IRCompKindView::FunctionCall { .. } => {
            lemma_comp_call(tokens, st, interner, gap, kind);
        },
        IRCompKindView::BinaryOperation(..) => {
            lemma_comp_binary(tokens, st, interner, gap, kind);
        },
        IRCompKindView::UnaryOperation(..) => {
            lemma_comp_unary(tokens, st, interner, gap, kind);
        },
        IRCompKindView::Constant(..) => {
            lemma_comp_constant(tokens, st, interner, gap, kind);
        },
        IRCompKindView::Alloc(..) => {
            lemma_comp_alloc(tokens, st, interner, gap, kind);
        },
        IRCompKindView::Store(..) => {
            lemma_comp_store(tokens, st, interner, gap, kind);
        },
        IRCompKindView::Load(..) => {
            lemma_comp_load(tokens, st, interner, gap, kind);
        },
        IRCompKindView::OffsetStore(..) => {
            lemma_comp_offset_store(tokens, st, interner, gap, kind);
        },
        IRCompKindView::OffsetLoad(..) => {
            lemma_comp_offset_load(tokens, st, interner, gap, kind);
        },
        IRCompKindView::Return(..) => {
            lemma_comp_return(tokens, st, interner, gap, kind);
        },
        IRCompKindView::If(..) => {
            lemma_comp_if(tokens, st, interner, gap, kind);
        },
        IRCompKindView::Jmp(..) => {
            lemma_comp_jmp(tokens, st, interner, gap, kind);
        },
    }
}

/// The name of a parameter or of a computation is read back.
pub proof fn lemma_parse_binding(
    tokens: Seq<TokenView>,
    st: AssemblerState,
    interner: &StringInterner,
    gap: Gap,
    name: Symbol,
)
    requires
        interner.wf(),
        knows_all(st, interner),
        interner.knows(name),
        matches_at(tokens, st.pos, binding_pieces(interner, gap, name)),
    ensures
        parse_binding(tokens, st) == Ok::<(Option<Symbol>, AssemblerState), ErrorView>(
            (Some(name), behind(st, 4)),
        ),
{
    let pieces = binding_pieces(interner, gap, name);
    let tried = expecting(st, IRAssemblerExpected::Kind(IRAssemblyTokenKind::Percent));
    assert(tokens[st.pos + 0].kind == pieces[0].kind);
    assert(advance(tried) == behind(st, 1));
    let st1 = behind(st, 1);
    lemma_matches_range(tokens, st.pos, pieces, 1, 2);
    assert(pieces.subrange(1, 2) =~= seq![word(Gap::Glue, interner.name_of(name))]);
    lemma_parse_symbol(tokens, st1, interner, Gap::Glue, name);
    let st2 = behind(st, 2);
    assert(behind(st1, 1) == st2);
    assert(tokens[st.pos + 2].kind == pieces[2].kind);
    let st3 = behind(st, 3);
    assert(tokens[st.pos + 3].kind == pieces[3].kind);
    assert(tokens[st.pos + 3].text == pieces[3].text);
    assert(expect_kind(tokens, st2, IRAssemblyTokenKind::Colon) is Ok);
    assert(expect_kind(tokens, st2, IRAssemblyTokenKind::Colon)->Ok_0.1 == st3);
    assert(expect_keyword(tokens, st3, "=") is Ok);
    assert(expect_keyword(tokens, st3, "=")->Ok_0.1 == behind(st, 4));
}

/// A computation with a name is read back: first its name, then what it
/// does.
proof fn lemma_parse_comp_named(
    tokens: Seq<TokenView>,
    st: AssemblerState,
    interner: &StringInterner,
    gap: Gap,
    id: Symbol,
    kind: IRCompKindView,
)
    requires
        interner.wf(),
        knows_all(st, interner),
        comp_known(interner, IRCompView { kind, id: Some(id) }),
        comp_sized(kind),
        matches_at(
            tokens,
            st.pos,
            binding_pieces(interner, gap, id) + comp_kind_pieces(interner, Gap::Space, kind),
        ),
    ensures
        tokens[st.pos].kind == IRAssemblyTokenKind::Percent,
        parse_binding(tokens, st) == Ok::<(Option<Symbol>, AssemblerState), ErrorView>(
            (Some(id), behind(st, 4)),
        ),
        parse_ir_comp(tokens, behind(st, 4)) == Ok::<(IRCompKindView, AssemblerState), ErrorView>(
            (kind, behind(st, 4 + comp_kind_pieces(interner, Gap::Space, kind).len() as int)),
        ),
{
    let a = binding_pieces(interner, gap, id);
    let b = comp_kind_pieces(interner, Gap::Space, kind);
    lemma_matches_split(tokens, st.pos, a, b);
    assert(tokens[st.pos + 0].kind == a[0].kind);
    lemma_parse_binding(tokens, st, interner, gap, id);
    let st1 = behind(st, 4);
    lemma_parse_comp_kind(tokens, st1, interner, Gap::Space, kind);
    assert(behind(st1, b.len() as int) == behind(st, 4 + b.len() as int));
}

/// A computation without a name begins with a word that does not end a
/// function.
proof fn lemma_parse_comp_bare(
    tokens: Seq<TokenView>,
    st: AssemblerState,
    interner: &StringInterner,
    gap: Gap,
    kind: IRCompKindView,
)
    requires
        matches_at(tokens, st.pos, comp_kind_pieces(interner, gap, kind)),
    ensures
        tokens[st.pos].kind == IRAssemblyTokenKind::Word,
        tokens[st.pos].text != "endfn"@,
{
    let pieces = comp_kind_pieces(interner, gap, kind);
    lemma_comp_head(tokens, st, interner, gap, kind);
    assert(tokens[st.pos + 0].kind == pieces[0].kind);
    assert(tokens[st.pos + 0].text == pieces[0].text);
    let i = comp_index(kind);
    assert(pieces[0].text == comp_keywords()[i]@);
    lemma_comp_keywords_end_nothing(i);
}

/// A computation is read back: first its name, if it has one, then what
/// it does. It begins neither with a colon nor with the word that ends a
/// function.
pub proof fn lemma_parse_comp(
    tokens: Seq<TokenView>,
    st: AssemblerState,
    interner: &StringInterner,
    gap: Gap,
    comp: IRCompView,
)
    requires
        interner.wf(),
        knows_all(st, interner),
        comp_known(interner, comp),
        comp_sized(comp.kind),
        matches_at(tokens, st.pos, comp_pieces(interner, gap, comp)),
    ensures
        comp_pieces(interner, gap, comp).len() >= 2,
        !is_keyword(tokens, st, "endfn"),
        peek(tokens, st).kind != IRAssemblyTokenKind::Colon,
        parse_binding(tokens, st) matches Ok((id, st1)) && id == comp.id && parse_ir_comp(
            tokens,
            st1,
        ) == Ok::<(IRCompKindView, AssemblerState), ErrorView>(
            (comp.kind, behind(st, comp_pieces(interner, gap, comp).len() as int)),
        ),
{
    match comp.id {
        Some(id) => {
            lemma_parse_comp_named(tokens, st, interner, gap, id, comp.kind);
        },
        None => {
            lemma_parse_comp_bare(tokens, st, interner, gap, comp.kind);
            let st1 = expecting(st, IRAssemblerExpected::Kind(IRAssemblyTokenKind::Percent));
            lemma_parse_comp_kind(tokens, st1, interner, gap, comp.kind);
            assert(behind(st1, comp_pieces(interner, gap, comp).len() as int) == behind(
                st,
                comp_pieces(interner, gap, comp).len() as int,
            ));
        },
    }
}

/// The parameters from the index `from` on, and the arrow behind them, are
/// read back.
pub proof fn lemma_parse_params(
    tokens: Seq<TokenView>,
    st: AssemblerState,
    interner: &StringInterner,
    params: Seq<(Option<Symbol>, IRType)>,
    from: int,
)
    requires
        interner.wf(),
        knows_all(st, interner),
        0 <= from <= params.len(),
        forall|i: int|
            0 <= i < params.len() ==> ((#[trigger] params[i]).0 matches Some(name)
                ==> interner.knows(name)),
        matches_at(
            tokens,
            st.pos,
            params_pieces(interner, params, from).push(
                sign(Gap::Space, IRAssemblyTokenKind::Arrow),
            ),
        ),
    ensures
        parse_params(tokens, st, params.take(from)) == Ok::<
            (Seq<(Option<Symbol>, IRType)>, AssemblerState),
            ErrorView,
        >((params, behind(st, params_pieces(interner, params, from).len() as int + 1))),
    decreases params.len() - from,
{
    let arrow = sign(Gap::Space, IRAssemblyTokenKind::Arrow);
    let pieces = params_pieces(interner, params, from).push(arrow);
    let tried = expecting(st, IRAssemblerExpected::Kind(IRAssemblyTokenKind::Arrow));
    assert(tokens[st.pos + 0].kind == pieces[0].kind);
    if from == params.len() {
        assert(params.take(from) =~= params);
        assert(advance(tried) == behind(st, 1));
    } else {
        let param = params[from];
        let a = param_pieces(interner, param);
        let b = params_pieces(interner, params, from + 1).push(arrow);
        assert(pieces =~= a + b);
        lemma_matches_split(tokens, st.pos, a, b);
        let st2 = behind(st, a.len() as int);
        match param.0 {
            Some(name) => {
                let c = binding_pieces(interner, Gap::Space, name);
                let d = type_pieces(Gap::Space, param.1);
                lemma_matches_split(tokens, st.pos, c, d);
                assert(pieces[0].kind == IRAssemblyTokenKind::Percent);
                lemma_parse_binding(tokens, tried, interner, Gap::Space, name);
                let st1 = behind(tried, 4);
                lemma_parse_type(tokens, st1, Gap::Space, param.1);
                assert(behind(st1, 4) == st2);
            },
            None => {
                assert(pieces[0].kind == IRAssemblyTokenKind::LParen);
                let st1 = expecting(
                    tried,
                    IRAssemblerExpected::Kind(IRAssemblyTokenKind::Percent),
                );
                lemma_parse_type(tokens, st1, Gap::Space, param.1);
                assert(behind(st1, 4) == st2);
            },
        }
        assert(params.take(from).push((param.0, param.1)) =~= params.take(from + 1));
        lemma_parse_params(tokens, st2, interner, params, from + 1);
        assert(behind(st2, b.len() as int) == behind(st, pieces.len() as int));
    }
}

/// Whether the counts in the function can be written as numbers of 64
/// bits.
pub open spec fn function_sized(function: IRFunctionView) -> bool {
    forall|i: int| 0 <= i < function.comps.len() ==> comp_sized((#[trigger] function.comps[i]).kind)
}

/// The lines of a function from the computation `at` and the label
/// definition `label` on, and the word that ends the function, are read
/// back.
pub proof fn lemma_parse_body(
    tokens: Seq<TokenView>,
    st: AssemblerState,
    interner: &StringInterner,
    function: IRFunctionView,
    at: int,
    label: int,
)
    requires
        interner.wf(),
        knows_all(st, interner),
        function_known(interner, function),
        labels_in_order(function),
        function_sized(function),
        0 <= at <= function.comps.len(),
        0 <= label <= function.label_defs.len(),
        forall|k: int|
            label <= k < function.label_defs.len() ==> (#[trigger] function.label_defs[k]).1 >= at,
        matches_at(
            tokens,
            st.pos,
            body_pieces(interner, function, at, label).push(word(Gap::Line, "endfn"@)),
        ),
    ensures
        parse_body(tokens, st, function.comps.take(at), function.label_defs.take(label)) == Ok::<
            ((Seq<IRCompView>, Seq<(Symbol, u64)>), AssemblerState),
            ErrorView,
        >(
            (
                (function.comps, function.label_defs),
                behind(st, body_pieces(interner, function, at, label).len() as int + 1),
            ),
        ),
    decreases function.comps.len() - at + function.label_defs.len() - label,
{
    let end = word(Gap::Line, "endfn"@);
    let pieces = body_pieces(interner, function, at, label).push(end);
    let tried = expecting(st, IRAssemblerExpected::Keyword("endfn"));
    let tried_label = expecting(tried, IRAssemblerExpected::Kind(IRAssemblyTokenKind::Colon));
    let comps = function.comps.take(at);
    let label_defs = function.label_defs.take(label);
    assert(tokens[st.pos + 0].kind == pieces[0].kind);
    assert(tokens[st.pos + 0].text == pieces[0].text);
    if label < function.label_defs.len() && function.label_defs[label].1 == at {
        let def = function.label_defs[label];
        let a = label_pieces(interner, def.0);
        let b = body_pieces(interner, function, at, label + 1).push(end);
        assert(pieces =~= a + b);
        lemma_matches_split(tokens, st.pos, a, b);
        assert(pieces[0].kind == IRAssemblyTokenKind::Colon);
        let st0 = behind(st, 1);
        assert(advance(tried_label) == st0);
        lemma_matches_range(tokens, st.pos, a, 1, 2);
        assert(a.subrange(1, 2) =~= seq![word(Gap::Glue, interner.name_of(def.0))]);
        lemma_parse_symbol(tokens, st0, interner, Gap::Glue, def.0);
        let st1 = behind(st, 2);
        assert(behind(st0, 1) == st1);
        assert(comps.len() as u64 == def.1);
        assert(label_defs.push((def.0, comps.len() as u64)) =~= function.label_defs.take(
            label + 1,
        ));
        lemma_parse_body(tokens, st1, interner, function, at, label + 1);
        assert(behind(st1, b.len() as int) == behind(st, pieces.len() as int));
    } else if at < function.comps.len() {
        let comp = function.comps[at];
        let a = comp_pieces(interner, Gap::Indent, comp);
        let b = body_pieces(interner, function, at + 1, label).push(end);
        assert(pieces =~= a + b);
        lemma_matches_split(tokens, st.pos, a, b);
        lemma_parse_comp(tokens, st, interner, Gap::Indent, comp);
        lemma_parse_comp(tokens, tried_label, interner, Gap::Indent, comp);
        let st2 = behind(st, a.len() as int);
        assert(behind(tried_label, a.len() as int) == st2);
        assert(comps.push(IRCompView { kind: comp.kind, id: comp.id }) =~= function.comps.take(
            at + 1,
        ));
        assert forall|k: int| label <= k < function.label_defs.len() implies (
        #[trigger] function.label_defs[k]).1 >= at + 1 by {
            assert(function.label_defs[label].1 <= function.label_defs[k].1);
        }
        lemma_parse_body(tokens, st2, interner, function, at + 1, label);
        assert(behind(st2, b.len() as int) == behind(st, pieces.len() as int));
    } else {
        if label < function.label_defs.len() {
            assert(function.label_defs[label].1 >= at);
            assert(function.label_defs[label].1 <= function.comps.len());
        }
        assert(comps =~= function.comps);
        assert(label_defs =~= function.label_defs);
        assert(advance(tried) == behind(st, 1));
    }
}

/// Whether the counts in the functions can be written as numbers of 64
/// bits.
pub open spec fn module_sized(functions: Seq<IRFunctionView>) -> bool {
    forall|i: int| 0 <= i < functions.len() ==> function_sized(#[trigger] functions[i])
}

/// A function is read back, from behind its first word.
pub proof fn lemma_parse_function(
    tokens: Seq<TokenView>,
    st: AssemblerState,
    interner: &StringInterner,
    gap: Gap,
    function: IRFunctionView,
)
    requires
        interner.wf(),
        knows_all(st, interner),
        function_writable(interner, function),
        function_sized(function),
        matches_at(tokens, st.pos, function_pieces(interner, gap, function)),
    ensures
        function_pieces(interner, gap, function).len() >= 9,
        is_keyword(tokens, st, "fn"),
        parse_function(tokens, behind(st, 1)) == Ok::<(IRFunctionView, AssemblerState), ErrorView>(
            (function, behind(st, function_pieces(interner, gap, function).len() as int)),
        ),
{
    reveal(parse_function);
    let pieces = function_pieces(interner, gap, function);
    let head = seq![
        word(gap, "fn"@),
        word(Gap::Space, interner.name_of(function.name)),
        sign(Gap::Glue, IRAssemblyTokenKind::Colon),
    ];
    let params = params_pieces(interner, function.params, 0).push(
        sign(Gap::Space, IRAssemblyTokenKind::Arrow),
    );
    let ty = type_pieces(Gap::Space, function.return_type);
    let body = body_pieces(interner, function, 0, 0).push(word(Gap::Line, "endfn"@));
    assert(pieces =~= head + params + ty + body);
    lemma_matches_split(tokens, st.pos, head + params + ty, body);
    lemma_matches_split(tokens, st.pos, head + params, ty);
    lemma_matches_split(tokens, st.pos, head, params);
    assert(tokens[st.pos + 0].kind == head[0].kind);
    assert(tokens[st.pos + 0].text == head[0].text);
    let st0 = behind(st, 1);
    lemma_matches_range(tokens, st.pos, head, 1, 2);
    assert(head.subrange(1, 2) =~= seq![word(Gap::Space, interner.name_of(function.name))]);
    lemma_parse_symbol(tokens, st0, interner, Gap::Space, function.name);
    let st1 = behind(st, 2);
    assert(behind(st0, 1) == st1);
    assert(tokens[st.pos + 2].kind == head[2].kind);
    let st2 = behind(st, 3);
    assert(expect_kind(tokens, st1, IRAssemblyTokenKind::Colon) is Ok);
    assert(expect_kind(tokens, st1, IRAssemblyTokenKind::Colon)->Ok_0.1 == st2);
    assert(function.params.take(0) =~= Seq::<(Option<Symbol>, IRType)>::empty());
    lemma_parse_params(tokens, st2, interner, function.params, 0);
    let st3 = behind(st, 3 + params.len() as int);
    assert(behind(st2, params.len() as int) == st3);
    lemma_parse_type(tokens, st3, Gap::Space, function.return_type);
    let st4 = behind(st, 7 + params.len() as int);
    assert(behind(st3, 4) == st4);
    assert(function.comps.take(0) =~= Seq::<IRCompView>::empty());
    assert(function.label_defs.take(0) =~= Seq::<(Symbol, u64)>::empty());
    lemma_parse_body(tokens, st4, interner, function, 0, 0);
    assert(behind(st4, body.len() as int) == behind(st, pieces.len() as int));
}

/// The functions of a module from the index `from` on are read back, up
/// to the end of the text.
pub proof fn lemma_parse_module(
    tokens: Seq<TokenView>,
    st: AssemblerState,
    interner: &StringInterner,
    functions: Seq<IRFunctionView>,
    from: int,
)
    requires
        interner.wf(),
        knows_all(st, interner),
        module_writable(interner, functions),
        module_sized(functions),
        0 <= from <= functions.len(),
        matches_at(tokens, st.pos, module_pieces(interner, functions, from)),
        tokens[st.pos + module_pieces(interner, functions, from).len()].kind
            == IRAssemblyTokenKind::Eof,
    ensures
        parse_ir_module(tokens, st, functions.take(from)) matches Ok((read, state)) && read
            == functions && knows_all(state, interner),
    decreases functions.len() - from,
{
    let pieces = module_pieces(interner, functions, from);
    let tried = expecting(st, IRAssemblerExpected::Keyword("fn"));
    if from == functions.len() {
        assert(functions.take(from) =~= functions);
    } else {
        let gap = if from == 0 {
            Gap::Glue
        } else {
            Gap::Blank
        };
        let a = function_pieces(interner, gap, functions[from]);
        let b = module_pieces(interner, functions, from + 1);
        lemma_matches_split(tokens, st.pos, a, b);
        lemma_parse_function(tokens, st, interner, gap, functions[from]);
        assert(advance(tried) == behind(st, 1));
        let st1 = behind(st, a.len() as int);
        assert(functions.take(from).push(functions[from]) =~= functions.take(from + 1));
        lemma_parse_module(tokens, st1, interner, functions, from + 1);
    }
}

} // verus!
