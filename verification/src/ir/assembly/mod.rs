//! The textual format of the intermediate representation: the assembler
//! reads it and the disassembler writes it.

pub mod assembler;
pub mod grammar;
pub mod keywords;
pub mod lexing;
pub mod names;
pub mod parsing;
pub mod round_trip;
pub mod tokens;

use crate::globals::{StringInterner, Symbol};
use crate::ir::comp::{
    IRComp, IRCompBinaryOperationKind, IRCompKind, IRCompKindView, IRCompUnaryOperationKind,
    IRCompView,
};
use crate::ir::{IRFunctionView, IRItem, IRItemFunctionDef, IRItemKind, IRModule, IRType, IRValue};
use crate::ir::assembly::names::{function_named, function_reads};
use crate::ir::assembly::tokens::IRAssemblyTokenKind;
use crate::text::{decimal, is_decimal, push_decimal, push_str, string_from_chars};
use vstd::prelude::*;

verus! {

/// What separates a token from the one before it.
#[derive(Debug, Clone, Copy, PartialEq, Eq, Structural)]
pub enum Gap {
    /// Nothing.
    Glue,
    /// One space.
    Space,
    /// A line feed and four spaces: the token begins a line within a
    /// function.
    Indent,
    /// A line feed: the token begins a line.
    Line,
    /// Two line feeds: the token begins a line behind an empty line.
    Blank,
}

/// A token as it is written: what separates it from the token before it,
/// its kind and its text.
pub struct Piece {
    pub gap: Gap,
    pub kind: IRAssemblyTokenKind,
    pub text: Seq<char>,
}

/// The characters of a gap.
pub open spec fn gap_text(gap: Gap) -> Seq<char> {
    match gap {
        Gap::Glue => Seq::empty(),
        Gap::Space => seq![' '],
        Gap::Indent => seq!['\n', ' ', ' ', ' ', ' '],
        Gap::Line => seq!['\n'],
        Gap::Blank => seq!['\n', '\n'],
    }
}

/// The text of the pieces: each gap, then each token.
pub open spec fn render(pieces: Seq<Piece>) -> Seq<char>
    decreases pieces.len(),
{
    if pieces.len() == 0 {
        Seq::empty()
    } else {
        render(pieces.drop_last()) + gap_text(pieces.last().gap) + pieces.last().text
    }
}

pub proof fn lemma_render_add(a: Seq<Piece>, b: Seq<Piece>)
    ensures
        render(a + b) == render(a) + render(b),
    decreases b.len(),
{
    if b.len() == 0 {
        assert(a + b =~= a);
    } else {
        assert((a + b).drop_last() =~= a + b.drop_last());
        lemma_render_add(a, b.drop_last());
    }
}

pub proof fn lemma_render_one(piece: Piece)
    ensures
        render(seq![piece]) == gap_text(piece.gap) + piece.text,
{
    let pieces = seq![piece];
    assert(pieces.drop_last() =~= Seq::<Piece>::empty());
    assert(render(pieces.drop_last()) =~= Seq::<char>::empty());
    assert(render(pieces) =~= gap_text(piece.gap) + piece.text);
}

/// The word `text`.
pub open spec fn word(gap: Gap, text: Seq<char>) -> Piece {
    Piece { gap, kind: IRAssemblyTokenKind::Word, text }
}

/// The number `n`.
pub open spec fn integer(gap: Gap, n: nat) -> Piece {
    Piece { gap, kind: IRAssemblyTokenKind::Integer, text: decimal(n) }
}

/// The text of a token that is a sign.
pub open spec fn sign_text(kind: IRAssemblyTokenKind) -> Seq<char> {
    match kind {
        IRAssemblyTokenKind::Percent => seq!['%'],
        IRAssemblyTokenKind::Colon => seq![':'],
        IRAssemblyTokenKind::Arrow => seq!['-', '>'],
        IRAssemblyTokenKind::LParen => seq!['('],
        IRAssemblyTokenKind::RParen => seq![')'],
        _ => Seq::empty(),
    }
}

/// The sign of the given kind.
pub open spec fn sign(gap: Gap, kind: IRAssemblyTokenKind) -> Piece {
    Piece { gap, kind, text: sign_text(kind) }
}

/// A type: `(size align)`.
pub open spec fn type_pieces(gap: Gap, ir_type: IRType) -> Seq<Piece> {
    seq![
        sign(gap, IRAssemblyTokenKind::LParen),
        integer(Gap::Glue, ir_type.size as nat),
        integer(Gap::Space, ir_type.align as nat),
        sign(Gap::Glue, IRAssemblyTokenKind::RParen),
    ]
}

/// A value: `%name`.
pub open spec fn value_pieces(interner: &StringInterner, gap: Gap, value: IRValue) -> Seq<Piece> {
    seq![sign(gap, IRAssemblyTokenKind::Percent), word(Gap::Glue, interner.name_of(value.id))]
}

/// Several values, each behind a space.
pub open spec fn values_pieces(interner: &StringInterner, values: Seq<IRValue>) -> Seq<Piece>
    decreases values.len(),
{
    if values.len() == 0 {
        Seq::empty()
    } else {
        values_pieces(interner, values.drop_last()) + value_pieces(
            interner,
            Gap::Space,
            values.last(),
        )
    }
}

/// Several bytes, each behind a space.
pub open spec fn bytes_pieces(bytes: Seq<u8>) -> Seq<Piece>
    decreases bytes.len(),
{
    if bytes.len() == 0 {
        Seq::empty()
    } else {
        bytes_pieces(bytes.drop_last()).push(integer(Gap::Space, bytes.last() as nat))
    }
}

/// The word for a binary operation.
pub open spec fn binary_operator_text(kind: IRCompBinaryOperationKind) -> Seq<char> {
    match kind {
        IRCompBinaryOperationKind::Plus => "+"@,
        IRCompBinaryOperationKind::Minus => "-"@,
        IRCompBinaryOperationKind::Mul => "*"@,
        IRCompBinaryOperationKind::Div => "/"@,
        IRCompBinaryOperationKind::Mod => "mod"@,
        IRCompBinaryOperationKind::BitAnd => "&"@,
        IRCompBinaryOperationKind::BitOr => "|"@,
        IRCompBinaryOperationKind::BitRShift => ">>"@,
        IRCompBinaryOperationKind::BitLShift => "<<"@,
        IRCompBinaryOperationKind::Equal => "=="@,
        IRCompBinaryOperationKind::NotEqual => "!="@,
        IRCompBinaryOperationKind::Greater => ">"@,
        IRCompBinaryOperationKind::Lesser => "<"@,
        IRCompBinaryOperationKind::GreaterEqual => ">="@,
        IRCompBinaryOperationKind::LesserEqual => "<="@,
    }
}

/// The word for a unary operation.
pub open spec fn unary_operator_text(kind: IRCompUnaryOperationKind) -> Seq<char> {
    match kind {
        IRCompUnaryOperationKind::BoolNot => "not"@,
        IRCompUnaryOperationKind::SignedNegation => "neg"@,
        IRCompUnaryOperationKind::BitNot => "bitnot"@,
    }
}

/// The name that is given to a parameter or a computation: `%name :=`.
pub open spec fn binding_pieces(interner: &StringInterner, gap: Gap, name: Symbol) -> Seq<Piece> {
    seq![
        sign(gap, IRAssemblyTokenKind::Percent),
        word(Gap::Glue, interner.name_of(name)),
        sign(Gap::Space, IRAssemblyTokenKind::Colon),
        word(Gap::Glue, "="@),
    ]
}

/// A reference to a label: its name, which is a number where it consists
/// of digits, and a word otherwise.
pub open spec fn label_ref_piece(interner: &StringInterner, label: Symbol) -> Piece {
    Piece {
        gap: Gap::Space,
        kind: if is_decimal(interner.name_of(label)) {
            IRAssemblyTokenKind::Integer
        } else {
            IRAssemblyTokenKind::Word
        },
        text: interner.name_of(label),
    }
}

/// A computation, without its name.
pub open spec fn comp_kind_pieces(interner: &StringInterner, gap: Gap, kind: IRCompKindView) -> Seq<
    Piece,
> {
    match kind {
        IRCompKindView::FunctionCall { name, args } => seq![
            word(gap, "call"@),
            word(Gap::Space, interner.name_of(name)),
            integer(Gap::Space, args.len()),
        ] + values_pieces(interner, args),
        IRCompKindView::BinaryOperation(operation) => seq![
            word(gap, "binop"@),
            word(Gap::Space, binary_operator_text(operation.kind)),
        ] + value_pieces(interner, Gap::Space, operation.left_operand) + value_pieces(
            interner,
            Gap::Space,
            operation.right_operand,
        ),
        IRCompKindView::UnaryOperation(operation) => seq![
            word(gap, "unop"@),
            word(Gap::Space, unary_operator_text(operation.kind)),
        ] + value_pieces(interner, Gap::Space, operation.operand),
        IRCompKindView::Constant(bytes) => seq![
            word(gap, "const"@),
            integer(Gap::Space, bytes.len()),
        ] + bytes_pieces(bytes),
        IRCompKindView::Alloc(ir_type) => seq![word(gap, "alloc"@)] + type_pieces(
            Gap::Space,
            ir_type,
        ),
        IRCompKindView::Store(ir_type, location, value) => seq![word(gap, "store"@)] + type_pieces(
            Gap::Space,
            ir_type,
        ) + value_pieces(interner, Gap::Space, location) + value_pieces(
            interner,
            Gap::Space,
            value,
        ),
        IRCompKindView::Load(ir_type, location) => seq![word(gap, "load"@)] + type_pieces(
            Gap::Space,
            ir_type,
        ) + value_pieces(interner, Gap::Space, location),
        IRCompKindView::OffsetStore(ir_type, location, value, offset) => (seq![
            word(gap, "offsetstore"@),
        ] + type_pieces(Gap::Space, ir_type) + value_pieces(interner, Gap::Space, location)
            + value_pieces(interner, Gap::Space, value)).push(
            integer(Gap::Space, offset as nat),
        ),
        IRCompKindView::OffsetLoad(ir_type, location, offset) => (seq![word(gap, "offsetload"@)]
            + type_pieces(Gap::Space, ir_type) + value_pieces(
            interner,
            Gap::Space,
            location,
        )).push(integer(Gap::Space, offset as nat)),
        IRCompKindView::Return(value) => seq![word(gap, "return"@)] + value_pieces(
            interner,
            Gap::Space,
            value,
        ),
        IRCompKindView::If(value, label) => (seq![word(gap, "if"@)] + value_pieces(
            interner,
            Gap::Space,
            value,
        )).push(label_ref_piece(interner, label)),
        IRCompKindView::Jmp(label) => seq![word(gap, "jmp"@), label_ref_piece(interner, label)],
    }
}

/// A computation: its name, if it has one, and what it does.
pub open spec fn comp_pieces(interner: &StringInterner, gap: Gap, comp: IRCompView) -> Seq<Piece> {
    match comp.id {
        Some(id) => binding_pieces(interner, gap, id) + comp_kind_pieces(
            interner,
            Gap::Space,
            comp.kind,
        ),
        None => comp_kind_pieces(interner, gap, comp.kind),
    }
}

/// A parameter, behind a space: its name, if it has one, and its type.
pub open spec fn param_pieces(interner: &StringInterner, param: (Option<Symbol>, IRType)) -> Seq<
    Piece,
> {
    match param.0 {
        Some(name) => binding_pieces(interner, Gap::Space, name) + type_pieces(
            Gap::Space,
            param.1,
        ),
        None => type_pieces(Gap::Space, param.1),
    }
}

/// The parameters from the index `from` on.
pub open spec fn params_pieces(
    interner: &StringInterner,
    params: Seq<(Option<Symbol>, IRType)>,
    from: int,
) -> Seq<Piece>
    decreases params.len() - from,
{
    if from < 0 || from >= params.len() {
        Seq::empty()
    } else {
        param_pieces(interner, params[from]) + params_pieces(interner, params, from + 1)
    }
}

/// The definition of a label, in a line of its own: `:name`.
pub open spec fn label_pieces(interner: &StringInterner, label: Symbol) -> Seq<Piece> {
    seq![sign(Gap::Indent, IRAssemblyTokenKind::Colon), word(Gap::Glue, interner.name_of(label))]
}

/// The lines of a function from the computation `at` and the label
/// definition `label` on: each computation in a line of its own, behind the
/// labels that stand for it.
pub open spec fn body_pieces(
    interner: &StringInterner,
    function: IRFunctionView,
    at: int,
    label: int,
) -> Seq<Piece>
    decreases function.comps.len() - at + function.label_defs.len() - label,
{
    if at < 0 || label < 0 || at > function.comps.len() || label > function.label_defs.len() {
        Seq::empty()
    } else if label < function.label_defs.len() && function.label_defs[label].1 == at {
        label_pieces(interner, function.label_defs[label].0) + body_pieces(
            interner,
            function,
            at,
            label + 1,
        )
    } else if at < function.comps.len() {
        comp_pieces(interner, Gap::Indent, function.comps[at]) + body_pieces(
            interner,
            function,
            at + 1,
            label,
        )
    } else {
        Seq::empty()
    }
}

/// A function: the head in one line, each label and each computation in a
/// line of its own that is indented by four spaces, and `endfn` in the last
/// line.
pub open spec fn function_pieces(interner: &StringInterner, gap: Gap, function: IRFunctionView)
    -> Seq<Piece> {
    (seq![
        word(gap, "fn"@),
        word(Gap::Space, interner.name_of(function.name)),
        sign(Gap::Glue, IRAssemblyTokenKind::Colon),
    ] + params_pieces(interner, function.params, 0)).push(
        sign(Gap::Space, IRAssemblyTokenKind::Arrow),
    ) + type_pieces(Gap::Space, function.return_type) + body_pieces(interner, function, 0, 0).push(
        word(Gap::Line, "endfn"@),
    )
}

/// The functions of a module from the index `from` on, with an empty line
/// between one and the next.
pub open spec fn module_pieces(
    interner: &StringInterner,
    functions: Seq<IRFunctionView>,
    from: int,
) -> Seq<Piece>
    decreases functions.len() - from,
{
    if from < 0 || from >= functions.len() {
        Seq::empty()
    } else {
        function_pieces(
            interner,
            if from == 0 {
                Gap::Glue
            } else {
                Gap::Blank
            },
            functions[from],
        ) + module_pieces(interner, functions, from + 1)
    }
}

/// How a function reads.
pub open spec fn function_text(interner: &StringInterner, function: IRFunctionView) -> Seq<char> {
    render(function_pieces(interner, Gap::Glue, function))
}

/// How a module reads.
pub open spec fn module_text(interner: &StringInterner, functions: Seq<IRFunctionView>) -> Seq<
    char,
> {
    render(module_pieces(interner, functions, 0))
}

/// Whether the interner knows the name of the computation, if it has one,
/// and every symbol in it.
pub open spec fn comp_known(interner: &StringInterner, comp: IRCompView) -> bool {
    &&& comp.id matches Some(id) ==> interner.knows(id)
    &&& match comp.kind {
        IRCompKindView::FunctionCall { name, args } => interner.knows(name) && forall|i: int|
            0 <= i < args.len() ==> interner.knows((#[trigger] args[i]).id),
        IRCompKindView::BinaryOperation(operation) => interner.knows(operation.left_operand.id)
            && interner.knows(operation.right_operand.id),
        IRCompKindView::UnaryOperation(operation) => interner.knows(operation.operand.id),
        IRCompKindView::Constant(_) => true,
        IRCompKindView::Alloc(_) => true,
        IRCompKindView::Store(_, location, value) => interner.knows(location.id) && interner.knows(
            value.id,
        ),
        IRCompKindView::Load(_, location) => interner.knows(location.id),
        IRCompKindView::OffsetStore(_, location, value, _) => interner.knows(location.id)
            && interner.knows(value.id),
        IRCompKindView::OffsetLoad(_, location, _) => interner.knows(location.id),
        IRCompKindView::Return(value) => interner.knows(value.id),
        IRCompKindView::If(value, label) => interner.knows(value.id) && interner.knows(label),
        IRCompKindView::Jmp(label) => interner.knows(label),
    }
}

/// Whether the labels are defined in the order of the computations for
/// which they stand, none of them behind the end of the function.
pub open spec fn labels_in_order(function: IRFunctionView) -> bool {
    &&& forall|i: int, j: int|
        0 <= i <= j < function.label_defs.len() ==> (#[trigger] function.label_defs[i]).1 <= (
        #[trigger] function.label_defs[j]).1
    &&& forall|i: int|
        0 <= i < function.label_defs.len() ==> (#[trigger] function.label_defs[i]).1
            <= function.comps.len()
}

/// Whether the interner knows every symbol in the function.
pub open spec fn function_known(interner: &StringInterner, function: IRFunctionView) -> bool {
    &&& interner.knows(function.name)
    &&& forall|i: int|
        0 <= i < function.params.len() ==> ((#[trigger] function.params[i]).0 matches Some(name)
            ==> interner.knows(name))
    &&& forall|i: int|
        0 <= i < function.comps.len() ==> comp_known(interner, #[trigger] function.comps[i])
    &&& forall|i: int|
        0 <= i < function.label_defs.len() ==> interner.knows((#[trigger] function.label_defs[i]).0)
}

/// Whether the function can be written so that it is read back: the
/// interner knows its symbols, its labels are in order, and its names read
/// as words.
pub open spec fn function_writable(interner: &StringInterner, function: IRFunctionView) -> bool {
    function_known(interner, function) && labels_in_order(function) && function_named(
        interner,
        function,
    )
}

/// Whether every function of the module can be written.
pub open spec fn module_writable(interner: &StringInterner, functions: Seq<IRFunctionView>)
    -> bool {
    forall|i: int|
        0 <= i < functions.len() ==> function_writable(interner, #[trigger] functions[i])
}

} // verus!

verus! {

/// Appends a gap.
fn push_gap(out: &mut Vec<char>, gap: Gap)
    ensures
        final(out)@ == old(out)@ + gap_text(gap),
{
    match gap {
        Gap::Glue => {},
        Gap::Space => {
            out.push(' ');
        },
        Gap::Indent => {
            out.push('\n');
            out.push(' ');
            out.push(' ');
            out.push(' ');
            out.push(' ');
        },
        Gap::Line => {
            out.push('\n');
        },
        Gap::Blank => {
            out.push('\n');
            out.push('\n');
        },
    }
    assert(out@ =~= old(out)@ + gap_text(gap));
}

/// Appends a word.
fn push_word(out: &mut Vec<char>, gap: Gap, text: &str)
    ensures
        final(out)@ == old(out)@ + render(seq![word(gap, text@)]),
{
    push_gap(out, gap);
    push_str(out, text);
    proof {
        let pieces = seq![word(gap, text@)];
        lemma_render_one(word(gap, text@));
        assert(out@ =~= old(out)@ + render(pieces));
    }
}

/// Appends a number.
fn push_integer(out: &mut Vec<char>, gap: Gap, n: u64)
    ensures
        final(out)@ == old(out)@ + render(seq![integer(gap, n as nat)]),
{
    push_gap(out, gap);
    push_decimal(out, n);
    proof {
        let pieces = seq![integer(gap, n as nat)];
        lemma_render_one(integer(gap, n as nat));
        assert(out@ =~= old(out)@ + render(pieces));
    }
}

/// Appends a sign.
fn push_sign(out: &mut Vec<char>, gap: Gap, kind: IRAssemblyTokenKind)
    ensures
        final(out)@ == old(out)@ + render(seq![sign(gap, kind)]),
{
    push_gap(out, gap);
    let ghost before = out@;
    match kind {
        IRAssemblyTokenKind::Percent => {
            out.push('%');
        },
        IRAssemblyTokenKind::Colon => {
            out.push(':');
        },
        IRAssemblyTokenKind::Arrow => {
            out.push('-');
            out.push('>');
        },
        IRAssemblyTokenKind::LParen => {
            out.push('(');
        },
        IRAssemblyTokenKind::RParen => {
            out.push(')');
        },
        _ => {},
    }
    proof {
        assert(out@ =~= before + sign_text(kind));
        let pieces = seq![sign(gap, kind)];
        lemma_render_one(sign(gap, kind));
        assert(out@ =~= old(out)@ + render(pieces));
    }
}

/// Appends the name of `symbol` as a word, if the interner knows it.
fn push_name(out: &mut Vec<char>, interner: &StringInterner, gap: Gap, symbol: Symbol) -> (known:
    bool)
    requires
        interner.wf(),
    ensures
        known == interner.knows(symbol),
        known ==> final(out)@ == old(out)@ + render(seq![word(gap, interner.name_of(symbol))]),
{
    match interner.get(&symbol) {
        Some(name) => {
            push_word(out, gap, name.as_str());
            true
        },
        None => false,
    }
}

fn push_ir_type(out: &mut Vec<char>, gap: Gap, ir_type: &IRType)
    ensures
        final(out)@ == old(out)@ + render(type_pieces(gap, *ir_type)),
{
    push_sign(out, gap, IRAssemblyTokenKind::LParen);
    push_integer(out, Gap::Glue, ir_type.size);
    push_integer(out, Gap::Space, ir_type.align);
    push_sign(out, Gap::Glue, IRAssemblyTokenKind::RParen);
    proof {
        let a = seq![sign(gap, IRAssemblyTokenKind::LParen)];
        let b = seq![integer(Gap::Glue, ir_type.size as nat)];
        let c = seq![integer(Gap::Space, ir_type.align as nat)];
        let d = seq![sign(Gap::Glue, IRAssemblyTokenKind::RParen)];
        lemma_render_add(a, b);
        lemma_render_add(a + b, c);
        lemma_render_add(a + b + c, d);
        assert(a + b + c + d =~= type_pieces(gap, *ir_type));
        assert(out@ =~= old(out)@ + render(type_pieces(gap, *ir_type)));
    }
}

fn push_value(out: &mut Vec<char>, interner: &StringInterner, gap: Gap, value: &IRValue) -> (known:
    bool)
    requires
        interner.wf(),
    ensures
        known == interner.knows(value.id),
        known ==> final(out)@ == old(out)@ + render(value_pieces(interner, gap, *value)),
{
    push_sign(out, gap, IRAssemblyTokenKind::Percent);
    let known = push_name(out, interner, Gap::Glue, value.id);
    proof {
        if known {
            let a = seq![sign(gap, IRAssemblyTokenKind::Percent)];
            let b = seq![word(Gap::Glue, interner.name_of(value.id))];
            lemma_render_add(a, b);
            assert(a + b =~= value_pieces(interner, gap, *value));
            assert(out@ =~= old(out)@ + render(value_pieces(interner, gap, *value)));
        }
    }
    known
}

fn push_binding(out: &mut Vec<char>, interner: &StringInterner, gap: Gap, name: Symbol) -> (known:
    bool)
    requires
        interner.wf(),
    ensures
        known == interner.knows(name),
        known ==> final(out)@ == old(out)@ + render(binding_pieces(interner, gap, name)),
{
    push_sign(out, gap, IRAssemblyTokenKind::Percent);
    if !push_name(out, interner, Gap::Glue, name) {
        return false;
    }
    push_sign(out, Gap::Space, IRAssemblyTokenKind::Colon);
    push_word(out, Gap::Glue, "=");
    proof {
        let a = seq![sign(gap, IRAssemblyTokenKind::Percent)];
        let b = seq![word(Gap::Glue, interner.name_of(name))];
        let c = seq![sign(Gap::Space, IRAssemblyTokenKind::Colon)];
        let d = seq![word(Gap::Glue, "="@)];
        lemma_render_add(a, b);
        lemma_render_add(a + b, c);
        lemma_render_add(a + b + c, d);
        assert(a + b + c + d =~= binding_pieces(interner, gap, name));
        assert(out@ =~= old(out)@ + render(binding_pieces(interner, gap, name)));
    }
    true
}

/// Appends a reference to a label.
fn push_label_ref(out: &mut Vec<char>, interner: &StringInterner, label: Symbol) -> (known: bool)
    requires
        interner.wf(),
    ensures
        known == interner.knows(label),
        known ==> final(out)@ == old(out)@ + render(seq![label_ref_piece(interner, label)]),
{
    let known = push_name(out, interner, Gap::Space, label);
    proof {
        if known {
            let a = seq![word(Gap::Space, interner.name_of(label))];
            let b = seq![label_ref_piece(interner, label)];
            lemma_render_one(word(Gap::Space, interner.name_of(label)));
            lemma_render_one(label_ref_piece(interner, label));
            assert(render(a) =~= render(b));
        }
    }
    known
}

fn binary_operator_word(kind: IRCompBinaryOperationKind) -> (r: &'static str)
    ensures
        r@ == binary_operator_text(kind),
{
    match kind {
        IRCompBinaryOperationKind::Plus => "+",
        IRCompBinaryOperationKind::Minus => "-",
        IRCompBinaryOperationKind::Mul => "*",
        IRCompBinaryOperationKind::Div => "/",
        IRCompBinaryOperationKind::Mod => "mod",
        IRCompBinaryOperationKind::BitAnd => "&",
        IRCompBinaryOperationKind::BitOr => "|",
        IRCompBinaryOperationKind::BitRShift => ">>",
        IRCompBinaryOperationKind::BitLShift => "<<",
        IRCompBinaryOperationKind::Equal => "==",
        IRCompBinaryOperationKind::NotEqual => "!=",
        IRCompBinaryOperationKind::Greater => ">",
        IRCompBinaryOperationKind::Lesser => "<",
        IRCompBinaryOperationKind::GreaterEqual => ">=",
        IRCompBinaryOperationKind::LesserEqual => "<=",
    }
}

fn unary_operator_word(kind: IRCompUnaryOperationKind) -> (r: &'static str)
    ensures
        r@ == unary_operator_text(kind),
{
    match kind {
        IRCompUnaryOperationKind::BoolNot => "not",
        IRCompUnaryOperationKind::SignedNegation => "neg",
        IRCompUnaryOperationKind::BitNot => "bitnot",
    }
}

/// Appends the values, each behind a space.
fn push_values(out: &mut Vec<char>, interner: &StringInterner, values: &Vec<IRValue>) -> (known:
    bool)
    requires
        interner.wf(),
    ensures
        known == (forall|i: int|
            0 <= i < values.len() ==> interner.knows((#[trigger] values@[i]).id)),
        known ==> final(out)@ == old(out)@ + render(values_pieces(interner, values@)),
{
    let mut i: usize = 0;
    proof {
        assert(old(out)@ + render(values_pieces(interner, values@.take(0))) =~= old(out)@);
    }
    while i < values.len()
        invariant
            i <= values.len(),
            interner.wf(),
            forall|j: int| 0 <= j < i ==> interner.knows((#[trigger] values@[j]).id),
            out@ == old(out)@ + render(values_pieces(interner, values@.take(i as int))),
        decreases values.len() - i,
    {
        if !push_value(out, interner, Gap::Space, &values[i]) {
            return false;
        }
        proof {
            let next = values@.take(i + 1);
            assert(next.drop_last() =~= values@.take(i as int));
            assert(next.last() == values@[i as int]);
            lemma_render_add(
                values_pieces(interner, values@.take(i as int)),
                value_pieces(interner, Gap::Space, values@[i as int]),
            );
            assert(out@ =~= old(out)@ + render(values_pieces(interner, next)));
        }
        i = i + 1;
    }
    proof {
        assert(values@.take(values.len() as int) =~= values@);
    }
    true
}

/// Appends the bytes, each behind a space.
fn push_bytes(out: &mut Vec<char>, bytes: &Vec<u8>)
    ensures
        final(out)@ == old(out)@ + render(bytes_pieces(bytes@)),
{
    let mut i: usize = 0;
    proof {
        assert(old(out)@ + render(bytes_pieces(bytes@.take(0))) =~= old(out)@);
    }
    while i < bytes.len()
        invariant
            i <= bytes.len(),
            out@ == old(out)@ + render(bytes_pieces(bytes@.take(i as int))),
        decreases bytes.len() - i,
    {
        push_integer(out, Gap::Space, bytes[i] as u64);
        proof {
            let next = bytes@.take(i + 1);
            assert(next.drop_last() =~= bytes@.take(i as int));
            assert(next.last() == bytes@[i as int]);
            let one = seq![integer(Gap::Space, bytes@[i as int] as nat)];
            lemma_render_add(bytes_pieces(bytes@.take(i as int)), one);
            assert(bytes_pieces(next) =~= bytes_pieces(bytes@.take(i as int)) + one);
            assert(out@ =~= old(out)@ + render(bytes_pieces(next)));
        }
        i = i + 1;
    }
    proof {
        assert(bytes@.take(bytes.len() as int) =~= bytes@);
    }
}

} // verus!

verus! {

/// What is written grows by the pieces that are appended.
proof fn lemma_emit(
    before: Seq<char>,
    emitted: Seq<Piece>,
    mid: Seq<char>,
    added: Seq<Piece>,
    after: Seq<char>,
)
    requires
        mid == before + render(emitted),
        after == mid + render(added),
    ensures
        after == before + render(emitted + added),
{
    lemma_render_add(emitted, added);
    assert(after =~= before + render(emitted + added));
}

/// Appends a computation, without its name.
fn push_comp_kind(out: &mut Vec<char>, interner: &StringInterner, gap: Gap, kind: &IRCompKind)
    -> (known: bool)
    requires
        interner.wf(),
    ensures
        known == comp_known(interner, IRCompView { kind: kind@, id: None }),
        known ==> final(out)@ == old(out)@ + render(comp_kind_pieces(interner, gap, kind@)),
{
    let ghost start = out@;
    match kind {
        IRCompKind::FunctionCall(function_call) => {
            push_word(out, gap, "call");
            let ghost e1 = seq![word(gap, "call"@)];
            let ghost m1 = out@;
            if !push_name(out, interner, Gap::Space, function_call.name) {
                return false;
            }
            let ghost a2 = seq![word(Gap::Space, interner.name_of(function_call.name))];
            let ghost m2 = out@;
            push_integer(out, Gap::Space, function_call.args.len() as u64);
            let ghost a3 = seq![integer(Gap::Space, function_call.args.len() as nat)];
            let ghost m3 = out@;
            if !push_values(out, interner, &function_call.args) {
                proof {
                    let args = function_call.args@;
                    let i = choose|i: int|
                        0 <= i < args.len() && !interner.knows((#[trigger] args[i]).id);
                    assert(!interner.knows(kind@->FunctionCall_args[i].id));
                }
                return false;
            }
            proof {
                let a4 = values_pieces(interner, function_call.args@);
                assert(start + render(Seq::<Piece>::empty()) =~= start);
                lemma_emit(start, Seq::empty(), start, e1, m1);
                lemma_emit(start, Seq::empty() + e1, m1, a2, m2);
                lemma_emit(start, Seq::empty() + e1 + a2, m2, a3, m3);
                lemma_emit(start, Seq::empty() + e1 + a2 + a3, m3, a4, out@);
                assert(Seq::empty() + e1 + a2 + a3 + a4 =~= comp_kind_pieces(interner, gap, kind@));
            }
            true
        },
        IRCompKind::BinaryOperation(operation) => {
            push_word(out, gap, "binop");
            let ghost e1 = seq![word(gap, "binop"@)];
            let ghost m1 = out@;
            push_word(out, Gap::Space, binary_operator_word(operation.kind));
            let ghost a2 = seq![word(Gap::Space, binary_operator_text(operation.kind))];
            let ghost m2 = out@;
            if !push_value(out, interner, Gap::Space, &operation.left_operand) {
                return false;
            }
            let ghost a3 = value_pieces(interner, Gap::Space, operation.left_operand);
            let ghost m3 = out@;
            if !push_value(out, interner, Gap::Space, &operation.right_operand) {
                return false;
            }
            proof {
                let a4 = value_pieces(interner, Gap::Space, operation.right_operand);
                assert(start + render(Seq::<Piece>::empty()) =~= start);
                lemma_emit(start, Seq::empty(), start, e1, m1);
                lemma_emit(start, Seq::empty() + e1, m1, a2, m2);
                lemma_emit(start, Seq::empty() + e1 + a2, m2, a3, m3);
                lemma_emit(start, Seq::empty() + e1 + a2 + a3, m3, a4, out@);
                assert(Seq::empty() + e1 + a2 + a3 + a4 =~= comp_kind_pieces(interner, gap, kind@));
            }
            true
        },
        IRCompKind::UnaryOperation(operation) => {
            push_word(out, gap, "unop");
            let ghost e1 = seq![word(gap, "unop"@)];
            let ghost m1 = out@;
            push_word(out, Gap::Space, unary_operator_word(operation.kind));
            let ghost a2 = seq![word(Gap::Space, unary_operator_text(operation.kind))];
            let ghost m2 = out@;
            if !push_value(out, interner, Gap::Space, &operation.operand) {
                return false;
            }
            proof {
                let a3 = value_pieces(interner, Gap::Space, operation.operand);
                assert(start + render(Seq::<Piece>::empty()) =~= start);
                lemma_emit(start, Seq::empty(), start, e1, m1);
                lemma_emit(start, Seq::empty() + e1, m1, a2, m2);
                lemma_emit(start, Seq::empty() + e1 + a2, m2, a3, out@);
                assert(Seq::empty() + e1 + a2 + a3 =~= comp_kind_pieces(interner, gap, kind@));
            }
            true
        },
        IRCompKind::Constant(constant) => {
            push_word(out, gap, "const");
            let ghost e1 = seq![word(gap, "const"@)];
            let ghost m1 = out@;
            push_integer(out, Gap::Space, constant.bytes.len() as u64);
            let ghost a2 = seq![integer(Gap::Space, constant.bytes.len() as nat)];
            let ghost m2 = out@;
            push_bytes(out, &constant.bytes);
            proof {
                let a3 = bytes_pieces(constant.bytes@);
                assert(start + render(Seq::<Piece>::empty()) =~= start);
                lemma_emit(start, Seq::empty(), start, e1, m1);
                lemma_emit(start, Seq::empty() + e1, m1, a2, m2);
                lemma_emit(start, Seq::empty() + e1 + a2, m2, a3, out@);
                assert(Seq::empty() + e1 + a2 + a3 =~= comp_kind_pieces(interner, gap, kind@));
            }
            true
        },
        IRCompKind::Alloc(ir_type) => {
            push_word(out, gap, "alloc");
            let ghost e1 = seq![word(gap, "alloc"@)];
            let ghost m1 = out@;
            push_ir_type(out, Gap::Space, ir_type);
            proof {
                let a2 = type_pieces(Gap::Space, *ir_type);
                assert(start + render(Seq::<Piece>::empty()) =~= start);
                lemma_emit(start, Seq::empty(), start, e1, m1);
                lemma_emit(start, Seq::empty() + e1, m1, a2, out@);
                assert(Seq::empty() + e1 + a2 =~= comp_kind_pieces(interner, gap, kind@));
            }
            true
        },
        IRCompKind::Store(ir_type, location, value) => {
            push_word(out, gap, "store");
            let ghost e1 = seq![word(gap, "store"@)];
            let ghost m1 = out@;
            push_ir_type(out, Gap::Space, ir_type);
            let ghost a2 = type_pieces(Gap::Space, *ir_type);
            let ghost m2 = out@;
            if !push_value(out, interner, Gap::Space, location) {
                return false;
            }
            let ghost a3 = value_pieces(interner, Gap::Space, *location);
            let ghost m3 = out@;
            if !push_value(out, interner, Gap::Space, value) {
                return false;
            }
            proof {
                let a4 = value_pieces(interner, Gap::Space, *value);
                assert(start + render(Seq::<Piece>::empty()) =~= start);
                lemma_emit(start, Seq::empty(), start, e1, m1);
                lemma_emit(start, Seq::empty() + e1, m1, a2, m2);
                lemma_emit(start, Seq::empty() + e1 + a2, m2, a3, m3);
                lemma_emit(start, Seq::empty() + e1 + a2 + a3, m3, a4, out@);
                assert(Seq::empty() + e1 + a2 + a3 + a4 =~= comp_kind_pieces(interner, gap, kind@));
            }
            true
        },
        IRCompKind::Load(ir_type, location) => {
            push_word(out, gap, "load");
            let ghost e1 = seq![word(gap, "load"@)];
            let ghost m1 = out@;
            push_ir_type(out, Gap::Space, ir_type);
            let ghost a2 = type_pieces(Gap::Space, *ir_type);
            let ghost m2 = out@;
            if !push_value(out, interner, Gap::Space, location) {
                return false;
            }
            proof {
                let a3 = value_pieces(interner, Gap::Space, *location);
                assert(start + render(Seq::<Piece>::empty()) =~= start);
                lemma_emit(start, Seq::empty(), start, e1, m1);
                lemma_emit(start, Seq::empty() + e1, m1, a2, m2);
                lemma_emit(start, Seq::empty() + e1 + a2, m2, a3, out@);
                assert(Seq::empty() + e1 + a2 + a3 =~= comp_kind_pieces(interner, gap, kind@));
            }
            true
        },
        IRCompKind::OffsetStore(ir_type, location, value, offset) => {
            push_word(out, gap, "offsetstore");
            let ghost e1 = seq![word(gap, "offsetstore"@)];
            let ghost m1 = out@;
            push_ir_type(out, Gap::Space, ir_type);
            let ghost a2 = type_pieces(Gap::Space, *ir_type);
            let ghost m2 = out@;
            if !push_value(out, interner, Gap::Space, location) {
                return false;
            }
            let ghost a3 = value_pieces(interner, Gap::Space, *location);
            let ghost m3 = out@;
            if !push_value(out, interner, Gap::Space, value) {
                return false;
            }
            let ghost a4 = value_pieces(interner, Gap::Space, *value);
            let ghost m4 = out@;
            push_integer(out, Gap::Space, *offset);
            proof {
                let a5 = seq![integer(Gap::Space, *offset as nat)];
                assert(start + render(Seq::<Piece>::empty()) =~= start);
                lemma_emit(start, Seq::empty(), start, e1, m1);
                lemma_emit(start, Seq::empty() + e1, m1, a2, m2);
                lemma_emit(start, Seq::empty() + e1 + a2, m2, a3, m3);
                lemma_emit(start, Seq::empty() + e1 + a2 + a3, m3, a4, m4);
                lemma_emit(start, Seq::empty() + e1 + a2 + a3 + a4, m4, a5, out@);
                assert(Seq::empty() + e1 + a2 + a3 + a4 + a5 =~= comp_kind_pieces(
                    interner,
                    gap,
                    kind@,
                ));
            }
            true
        },
        IRCompKind::OffsetLoad(ir_type, location, offset) => {
            push_word(out, gap, "offsetload");
            let ghost e1 = seq![word(gap, "offsetload"@)];
            let ghost m1 = out@;
            push_ir_type(out, Gap::Space, ir_type);
            let ghost a2 = type_pieces(Gap::Space, *ir_type);
            let ghost m2 = out@;
            if !push_value(out, interner, Gap::Space, location) {
                return false;
            }
            let ghost a3 = value_pieces(interner, Gap::Space, *location);
            let ghost m3 = out@;
            push_integer(out, Gap::Space, *offset);
            proof {
                let a4 = seq![integer(Gap::Space, *offset as nat)];
                assert(start + render(Seq::<Piece>::empty()) =~= start);
                lemma_emit(start, Seq::empty(), start, e1, m1);
                lemma_emit(start, Seq::empty() + e1, m1, a2, m2);
                lemma_emit(start, Seq::empty() + e1 + a2, m2, a3, m3);
                lemma_emit(start, Seq::empty() + e1 + a2 + a3, m3, a4, out@);
                assert(Seq::empty() + e1 + a2 + a3 + a4 =~= comp_kind_pieces(interner, gap, kind@));
            }
            true
        },
        IRCompKind::Return(value) => {
            push_word(out, gap, "return");
            let ghost e1 = seq![word(gap, "return"@)];
            let ghost m1 = out@;
            if !push_value(out, interner, Gap::Space, value) {
                return false;
            }
            proof {
                let a2 = value_pieces(interner, Gap::Space, *value);
                assert(start + render(Seq::<Piece>::empty()) =~= start);
                lemma_emit(start, Seq::empty(), start, e1, m1);
                lemma_emit(start, Seq::empty() + e1, m1, a2, out@);
                assert(Seq::empty() + e1 + a2 =~= comp_kind_pieces(interner, gap, kind@));
            }
            true
        },
        IRCompKind::If(value, label) => {
            push_word(out, gap, "if");
            let ghost e1 = seq![word(gap, "if"@)];
            let ghost m1 = out@;
            if !push_value(out, interner, Gap::Space, value) {
                return false;
            }
            let ghost a2 = value_pieces(interner, Gap::Space, *value);
            let ghost m2 = out@;
            if !push_label_ref(out, interner, *label) {
                return false;
            }
            proof {
                let a3 = seq![label_ref_piece(interner, *label)];
                assert(start + render(Seq::<Piece>::empty()) =~= start);
                lemma_emit(start, Seq::empty(), start, e1, m1);
                lemma_emit(start, Seq::empty() + e1, m1, a2, m2);
                lemma_emit(start, Seq::empty() + e1 + a2, m2, a3, out@);
                assert(Seq::empty() + e1 + a2 + a3 =~= comp_kind_pieces(interner, gap, kind@));
            }
            true
        },
        IRCompKind::Jmp(label) => {
            push_word(out, gap, "jmp");
            let ghost e1 = seq![word(gap, "jmp"@)];
            let ghost m1 = out@;
            if !push_label_ref(out, interner, *label) {
                return false;
            }
            proof {
                let a2 = seq![label_ref_piece(interner, *label)];
                assert(start + render(Seq::<Piece>::empty()) =~= start);
                lemma_emit(start, Seq::empty(), start, e1, m1);
                lemma_emit(start, Seq::empty() + e1, m1, a2, out@);
                assert(Seq::empty() + e1 + a2 =~= comp_kind_pieces(interner, gap, kind@));
            }
            true
        },
    }
}

/// Appends a computation.
fn push_comp(out: &mut Vec<char>, interner: &StringInterner, gap: Gap, comp: &IRComp) -> (known:
    bool)
    requires
        interner.wf(),
    ensures
        known == comp_known(interner, comp@),
        known ==> final(out)@ == old(out)@ + render(comp_pieces(interner, gap, comp@)),
{
    match comp.id {
        Some(id) => {
            if !push_binding(out, interner, gap, id) {
                return false;
            }
            let ghost mid = out@;
            if !push_comp_kind(out, interner, Gap::Space, &comp.kind) {
                return false;
            }
            proof {
                lemma_emit(
                    old(out)@,
                    binding_pieces(interner, gap, id),
                    mid,
                    comp_kind_pieces(interner, Gap::Space, comp@.kind),
                    out@,
                );
            }
            true
        },
        None => push_comp_kind(out, interner, gap, &comp.kind),
    }
}

/// Appends a parameter.
fn push_param(out: &mut Vec<char>, interner: &StringInterner, param: &(Option<Symbol>, IRType))
    -> (known: bool)
    requires
        interner.wf(),
    ensures
        known == (param.0 matches Some(name) ==> interner.knows(name)),
        known ==> final(out)@ == old(out)@ + render(param_pieces(interner, *param)),
{
    match param.0 {
        Some(name) => {
            if !push_binding(out, interner, Gap::Space, name) {
                return false;
            }
            let ghost mid = out@;
            push_ir_type(out, Gap::Space, &param.1);
            proof {
                lemma_emit(
                    old(out)@,
                    binding_pieces(interner, Gap::Space, name),
                    mid,
                    type_pieces(Gap::Space, param.1),
                    out@,
                );
            }
            true
        },
        None => {
            push_ir_type(out, Gap::Space, &param.1);
            true
        },
    }
}

} // verus!

verus! {

/// Whether the interner knows the names of all labels.
fn labels_known(interner: &StringInterner, label_defs: &Vec<(Symbol, u64)>) -> (known: bool)
    requires
        interner.wf(),
    ensures
        known == (forall|i: int|
            0 <= i < label_defs.len() ==> interner.knows((#[trigger] label_defs@[i]).0)),
{
    let mut i: usize = 0;
    while i < label_defs.len()
        invariant
            i <= label_defs.len(),
            interner.wf(),
            forall|j: int| 0 <= j < i ==> interner.knows((#[trigger] label_defs@[j]).0),
        decreases label_defs.len() - i,
    {
        if interner.get(&label_defs[i].0).is_none() {
            return false;
        }
        i = i + 1;
    }
    true
}

/// Whether the labels of the function are in order.
fn check_labels_in_order(function: &IRItemFunctionDef) -> (r: bool)
    ensures
        r == labels_in_order(function@),
{
    let defs = &function.label_defs;
    let comps = function.comps.len() as u64;
    let mut i: usize = 0;
    while i < defs.len()
        invariant
            i <= defs.len(),
            defs == &function.label_defs,
            comps == function.comps.len(),
            forall|a: int, b: int|
                0 <= a <= b < i ==> (#[trigger] defs@[a]).1 <= (#[trigger] defs@[b]).1,
            forall|a: int| 0 <= a < i ==> (#[trigger] defs@[a]).1 <= comps,
        decreases defs.len() - i,
    {
        if defs[i].1 > comps {
            assert(function@.label_defs[i as int].1 > function@.comps.len());
            return false;
        }
        if i > 0 && defs[i - 1].1 > defs[i].1 {
            assert(function@.label_defs[i - 1].1 > function@.label_defs[i as int].1);
            return false;
        }
        proof {
            assert forall|a: int, b: int| 0 <= a <= b < i + 1 implies (#[trigger] defs@[a]).1 <= (
            #[trigger] defs@[b]).1 by {
                if b == i && a < i {
                    assert(defs@[a].1 <= defs@[i - 1].1);
                }
            }
        }
        i = i + 1;
    }
    true
}

fn push_function(
    out: &mut Vec<char>,
    interner: &StringInterner,
    gap: Gap,
    function: &IRItemFunctionDef,
) -> (known: bool)
    requires
        interner.wf(),
    ensures
        known == function_writable(interner, function@),
        known ==> final(out)@ == old(out)@ + render(function_pieces(interner, gap, function@)),
{
    if !check_labels_in_order(function) {
        return false;
    }
    if !labels_known(interner, &function.label_defs) {
        proof {
            let defs = function.label_defs@;
            let i = choose|i: int| 0 <= i < defs.len() && !interner.knows((#[trigger] defs[i]).0);
            assert(!interner.knows(function@.label_defs[i].0));
        }
        return false;
    }
    let ghost start = out@;
    let ghost view = function@;
    push_word(out, gap, "fn");
    let ghost m1 = out@;
    if !push_name(out, interner, Gap::Space, function.name) {
        return false;
    }
    let ghost m2 = out@;
    push_sign(out, Gap::Glue, IRAssemblyTokenKind::Colon);
    let ghost head = seq![
        word(gap, "fn"@),
        word(Gap::Space, interner.name_of(function.name)),
        sign(Gap::Glue, IRAssemblyTokenKind::Colon),
    ];
    proof {
        let e1 = seq![word(gap, "fn"@)];
        let a2 = seq![word(Gap::Space, interner.name_of(function.name))];
        let a3 = seq![sign(Gap::Glue, IRAssemblyTokenKind::Colon)];
        assert(start + render(Seq::<Piece>::empty()) =~= start);
        lemma_emit(start, Seq::empty(), start, e1, m1);
        lemma_emit(start, Seq::empty() + e1, m1, a2, m2);
        lemma_emit(start, Seq::empty() + e1 + a2, m2, a3, out@);
        assert(Seq::empty() + e1 + a2 + a3 =~= head);
    }
    let ghost mut emitted: Seq<Piece> = head;
    let ghost mut done: Seq<Piece> = Seq::empty();
    let mut i: usize = 0;
    proof {
        assert(head + done =~= head);
    }
    while i < function.params.len()
        invariant
            i <= function.params.len(),
            interner.wf(),
            view == function@,
            forall|j: int|
                0 <= j < i ==> ((#[trigger] function.params@[j]).0 matches Some(name)
                    ==> interner.knows(name)),
            out@ == start + render(head + done),
            done + params_pieces(interner, view.params, i as int) == params_pieces(
                interner,
                view.params,
                0,
            ),
        decreases function.params.len() - i,
    {
        let ghost mid = out@;
        if !push_param(out, interner, &function.params[i]) {
            return false;
        }
        proof {
            let added = param_pieces(interner, view.params[i as int]);
            lemma_emit(start, head + done, mid, added, out@);
            assert(head + done + added =~= head + (done + added));
            assert((done + added) + params_pieces(interner, view.params, i + 1) =~= done + (added
                + params_pieces(interner, view.params, i + 1)));
            done = done + added;
        }
        i = i + 1;
    }
    proof {
        assert(params_pieces(interner, view.params, function.params.len() as int)
            =~= Seq::<Piece>::empty());
        assert(done =~= params_pieces(interner, view.params, 0));
        emitted = head + done;
    }
    let ghost m3 = out@;
    push_sign(out, Gap::Space, IRAssemblyTokenKind::Arrow);
    let ghost m4 = out@;
    push_ir_type(out, Gap::Space, &function.return_type);
    proof {
        let arrow = seq![sign(Gap::Space, IRAssemblyTokenKind::Arrow)];
        let ret = type_pieces(Gap::Space, view.return_type);
        lemma_emit(start, emitted, m3, arrow, m4);
        lemma_emit(start, emitted + arrow, m4, ret, out@);
        emitted = emitted + arrow + ret;
    }
    let ghost signature = emitted;
    let ghost mut lines: Seq<Piece> = Seq::empty();
    let mut at: usize = 0;
    let mut label: usize = 0;
    proof {
        assert(signature + lines =~= signature);
    }
    loop
        invariant
            at <= function.comps.len(),
            label <= function.label_defs.len(),
            interner.wf(),
            view == function@,
            forall|j: int|
                0 <= j < function.label_defs.len() ==> interner.knows(
                    (#[trigger] function.label_defs@[j]).0,
                ),
            forall|j: int| 0 <= j < at ==> comp_known(interner, #[trigger] view.comps[j]),
            out@ == start + render(signature + lines),
            lines + body_pieces(interner, view, at as int, label as int) == body_pieces(
                interner,
                view,
                0,
                0,
            ),
        ensures
            at == function.comps.len(),
            forall|j: int|
                0 <= j < function.comps.len() ==> comp_known(interner, #[trigger] view.comps[j]),
            out@ == start + render(signature + lines),
            lines == body_pieces(interner, view, 0, 0),
        decreases function.comps.len() - at + function.label_defs.len() - label,
    {
        let ghost mid = out@;
        if label < function.label_defs.len() && function.label_defs[label].1 == at as u64 {
            push_sign(out, Gap::Indent, IRAssemblyTokenKind::Colon);
            let ghost mid2 = out@;
            let known = push_name(out, interner, Gap::Glue, function.label_defs[label].0);
            assert(known);
            proof {
                let name = view.label_defs[label as int].0;
                let a = seq![sign(Gap::Indent, IRAssemblyTokenKind::Colon)];
                let b = seq![word(Gap::Glue, interner.name_of(name))];
                lemma_emit(start, signature + lines, mid, a, mid2);
                lemma_emit(start, signature + lines + a, mid2, b, out@);
                let added = label_pieces(interner, name);
                assert(a + b =~= added);
                assert(signature + lines + a + b =~= signature + (lines + added));
                assert((lines + added) + body_pieces(interner, view, at as int, label + 1)
                    =~= lines + (added + body_pieces(interner, view, at as int, label + 1)));
                lines = lines + added;
            }
            label = label + 1;
        } else if at < function.comps.len() {
            assert(view.comps[at as int] == function.comps@[at as int]@);
            if !push_comp(out, interner, Gap::Indent, &function.comps[at]) {
                return false;
            }
            proof {
                let added = comp_pieces(interner, Gap::Indent, view.comps[at as int]);
                lemma_emit(start, signature + lines, mid, added, out@);
                assert(signature + lines + added =~= signature + (lines + added));
                assert((lines + added) + body_pieces(interner, view, at + 1, label as int)
                    =~= lines + (added + body_pieces(interner, view, at + 1, label as int)));
                lines = lines + added;
            }
            at = at + 1;
        } else {
            proof {
                assert(body_pieces(interner, view, at as int, label as int)
                    =~= Seq::<Piece>::empty());
                assert(lines + Seq::<Piece>::empty() =~= lines);
            }
            break ;
        }
    }
    let ghost m5 = out@;
    push_word(out, Gap::Line, "endfn");
    proof {
        let end = seq![word(Gap::Line, "endfn"@)];
        lemma_emit(start, signature + lines, m5, end, out@);
        assert(signature + lines + end =~= function_pieces(interner, gap, view));
    }
    assert(function_known(interner, view));
    function_reads(interner, function)
}

/// Writes an item in the textual format, or `None` where it cannot be
/// written so that it is read back: the interner does not know one of its
/// symbols, its labels are not in order, or one of its names does not read
/// as a word.
pub fn assembly_for_ir_item(ir_item: &IRItem, interner: &StringInterner) -> (r: Option<String>)
    requires
        interner.wf(),
    ensures
        r is Some == function_writable(interner, ir_item@),
        r matches Some(text) ==> text@ == function_text(interner, ir_item@),
{
    let mut out: Vec<char> = Vec::new();
    match &ir_item.kind {
        IRItemKind::FunctionDef(function_def) => {
            if !push_function(&mut out, interner, Gap::Glue, function_def) {
                return None;
            }
            assert(out@ =~= function_text(interner, ir_item@));
        },
    }
    Some(string_from_chars(&out))
}

/// Writes a module in the textual format: its functions with an empty line
/// between one and the next; or `None` where one of them cannot be written.
pub fn assembly_for_ir_modules(ir_module: &IRModule, interner: &StringInterner) -> (r: Option<
    String,
>)
    requires
        interner.wf(),
    ensures
        r is Some == module_writable(interner, ir_module@),
        r matches Some(text) ==> text@ == module_text(interner, ir_module@),
{
    let mut out: Vec<char> = Vec::new();
    let ghost mut done: Seq<Piece> = Seq::empty();
    let mut i: usize = 0;
    while i < ir_module.items.len()
        invariant
            i <= ir_module.items.len(),
            interner.wf(),
            forall|j: int| 0 <= j < i ==> function_writable(interner, #[trigger] ir_module@[j]),
            out@ == render(done),
            done + module_pieces(interner, ir_module@, i as int) == module_pieces(
                interner,
                ir_module@,
                0,
            ),
        decreases ir_module.items.len() - i,
    {
        assert(ir_module@[i as int] == ir_module.items@[i as int]@);
        let gap = if i == 0 {
            Gap::Glue
        } else {
            Gap::Blank
        };
        let ghost mid = out@;
        match &ir_module.items[i].kind {
            IRItemKind::FunctionDef(function_def) => {
                if !push_function(&mut out, interner, gap, function_def) {
                    return None;
                }
            },
        }
        proof {
            let added = function_pieces(interner, gap, ir_module@[i as int]);
            assert(Seq::<char>::empty() + render(done) =~= render(done));
            lemma_emit(Seq::empty(), done, mid, added, out@);
            assert(Seq::<char>::empty() + render(done + added) =~= render(done + added));
            assert((done + added) + module_pieces(interner, ir_module@, i + 1) =~= done + (added
                + module_pieces(interner, ir_module@, i + 1)));
            done = done + added;
        }
        i = i + 1;
    }
    proof {
        assert(module_pieces(interner, ir_module@, ir_module@.len() as int)
            =~= Seq::<Piece>::empty());
        assert(done + Seq::<Piece>::empty() =~= done);
    }
    Some(string_from_chars(&out))
}

} // verus!
