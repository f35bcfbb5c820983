//! The grammar of the textual format, as functions from tokens to the
//! module that they describe.
//!
//! ```text
//! module   := function*
//! function := "fn" word ":" param* "->" irtype stmt* "endfn"
//! param    := ("%" word ":" "=")? irtype
//! irtype   := "(" integer integer ")"
//! stmt     := ":" word | ("%" word ":" "=")? comp
//! comp     := "call" word integer value*
//!           | "binop" operator value value
//!           | "unop" ("not" | "neg" | "bitnot") value
//!           | "const" integer integer*
//!           | "alloc" irtype
//!           | "store" irtype value value
//!           | "load" irtype value
//!           | "offsetstore" irtype value value integer
//!           | "offsetload" irtype value integer
//!           | "return" value
//!           | "if" value labelref
//!           | "jmp" labelref
//! value    := "%" word
//! labelref := word | integer
//! ```

use crate::globals::Symbol;
use crate::ir::assembly::tokens::{IRAssemblyTokenKind, TokenView};
use crate::ir::comp::{
    IRCompBinaryOperation, IRCompBinaryOperationKind, IRCompKindView, IRCompUnaryOperation,
    IRCompUnaryOperationKind, IRCompView,
};
use crate::ir::{IRFunctionView, IRType, IRValue};
use crate::text::decimal_value;
use vstd::prelude::*;

verus! {

/// Something that the assembler would have accepted.
#[derive(Debug, Clone, Copy)]
pub enum IRAssemblerExpected {
    Keyword(&'static str),
    Kind(IRAssemblyTokenKind),
}

/// An error of the assembler: what it says, the offset of the first byte
/// of the token at which it arose, and the number of line feeds before
/// that token.
pub struct ErrorView {
    pub message: Seq<char>,
    pub start: nat,
    pub line: nat,
}

/// Where the assembler stands: the index of the next token, what it has
/// tried at that token, and the strings that are interned.
pub struct AssemblerState {
    pub pos: int,
    pub expected: Seq<IRAssemblerExpected>,
    pub names: Map<Seq<char>, u64>,
    pub count: nat,
}

pub type Parsed<T> = Result<(T, AssemblerState), ErrorView>;

/// The name of a kind of token.
pub open spec fn kind_name(kind: IRAssemblyTokenKind) -> Seq<char> {
    match kind {
        IRAssemblyTokenKind::Word => "Word"@,
        IRAssemblyTokenKind::Integer => "Integer"@,
        IRAssemblyTokenKind::Percent => "Percent"@,
        IRAssemblyTokenKind::Colon => "Colon"@,
        IRAssemblyTokenKind::Arrow => "Arrow"@,
        IRAssemblyTokenKind::LParen => "LParen"@,
        IRAssemblyTokenKind::RParen => "RParen"@,
        IRAssemblyTokenKind::UnexpectedCharacter => "UnexpectedCharacter"@,
        IRAssemblyTokenKind::Eof => "Eof"@,
    }
}

/// How an expectation reads in a message.
pub open spec fn expected_text(expected: IRAssemblerExpected) -> Seq<char> {
    match expected {
        IRAssemblerExpected::Keyword(keyword) => "Keyword(\""@ + keyword@ + "\")"@,
        IRAssemblerExpected::Kind(kind) => "Kind("@ + kind_name(kind) + ")"@,
    }
}

/// The expectations, separated by commas.
pub open spec fn expected_list_text(expected: Seq<IRAssemblerExpected>) -> Seq<char>
    decreases expected.len(),
{
    if expected.len() == 0 {
        Seq::empty()
    } else if expected.len() == 1 {
        expected_text(expected[0])
    } else {
        expected_list_text(expected.drop_last()) + ", "@ + expected_text(expected.last())
    }
}

/// The message for a token with the text `got` where one of `expected` had
/// to stand.
pub open spec fn unexpected_message(expected: Seq<IRAssemblerExpected>, got: Seq<char>) -> Seq<
    char,
> {
    "Expected \"["@ + expected_list_text(expected) + "]\" got \""@ + got + "\""@
}

/// The next token. Behind the last token, which is the end of the text,
/// the end of the text follows again.
pub open spec fn peek(tokens: Seq<TokenView>, st: AssemblerState) -> TokenView {
    if 0 <= st.pos < tokens.len() {
        tokens[st.pos]
    } else {
        tokens.last()
    }
}

/// The state after something was tried at the next token.
pub open spec fn expecting(st: AssemblerState, expected: IRAssemblerExpected) -> AssemblerState {
    AssemblerState { expected: st.expected.push(expected), ..st }
}

/// The state behind the next token.
pub open spec fn advance(st: AssemblerState) -> AssemblerState {
    AssemblerState { pos: st.pos + 1, expected: Seq::empty(), ..st }
}

/// Whether the next token is the word `keyword`.
pub open spec fn is_keyword(tokens: Seq<TokenView>, st: AssemblerState, keyword: &'static str)
    -> bool {
    peek(tokens, st).kind == IRAssemblyTokenKind::Word && peek(tokens, st).text == keyword@
}

/// The error for the next token, which is none of those that were tried.
pub open spec fn error_unexpected(tokens: Seq<TokenView>, st: AssemblerState) -> ErrorView {
    ErrorView {
        message: unexpected_message(st.expected, peek(tokens, st).text),
        start: peek(tokens, st).start,
        line: peek(tokens, st).line,
    }
}

/// The error at `token` with the given message.
pub open spec fn error_at(token: TokenView, message: Seq<char>) -> ErrorView {
    ErrorView { message, start: token.start, line: token.line }
}

/// Takes the next token, which has to be of the given kind.
pub open spec fn expect_kind(tokens: Seq<TokenView>, st: AssemblerState, kind: IRAssemblyTokenKind)
    -> Parsed<TokenView> {
    let tried = expecting(st, IRAssemblerExpected::Kind(kind));
    if peek(tokens, st).kind == kind {
        Ok((peek(tokens, st), advance(tried)))
    } else {
        Err(error_unexpected(tokens, tried))
    }
}

/// Takes the next token, which has to be the word `keyword`.
pub open spec fn expect_keyword(tokens: Seq<TokenView>, st: AssemblerState, keyword: &'static str)
    -> Parsed<()> {
    let tried = expecting(st, IRAssemblerExpected::Keyword(keyword));
    if is_keyword(tokens, st, keyword) {
        Ok(((), advance(tried)))
    } else {
        Err(error_unexpected(tokens, tried))
    }
}

/// The symbol of the text of `token`, which is interned if it is new.
pub open spec fn intern(token: TokenView, st: AssemblerState) -> Parsed<Symbol> {
    if st.names.dom().contains(token.text) {
        Ok((Symbol { index: st.names[token.text] }, st))
    } else if st.count < u64::MAX {
        Ok(
            (
                Symbol { index: st.count as u64 },
                AssemblerState {
                    names: st.names.insert(token.text, st.count as u64),
                    count: st.count + 1,
                    ..st
                },
            ),
        )
    } else {
        Err(error_at(token, "Too many symbols"@))
    }
}

/// A number that is at most `max`.
pub open spec fn parse_integer(tokens: Seq<TokenView>, st: AssemblerState, max: u64) -> Parsed<
    u64,
> {
    match expect_kind(tokens, st, IRAssemblyTokenKind::Integer) {
        Err(e) => Err(e),
        Ok((token, next)) => if decimal_value(token.text) <= max {
            Ok((decimal_value(token.text) as u64, next))
        } else if max == u8::MAX {
            Err(error_at(token, "Expected integer to fit into 8 bits"@))
        } else {
            Err(error_at(token, "Expected integer to fit into 64 bits"@))
        },
    }
}

/// A word, as a symbol.
pub open spec fn parse_symbol(tokens: Seq<TokenView>, st: AssemblerState) -> Parsed<Symbol> {
    match expect_kind(tokens, st, IRAssemblyTokenKind::Word) {
        Err(e) => Err(e),
        Ok((token, next)) => intern(token, next),
    }
}

/// `"(" integer integer ")"`: a size and an alignment.
pub open spec fn parse_ir_type(tokens: Seq<TokenView>, st: AssemblerState) -> Parsed<IRType> {
    match expect_kind(tokens, st, IRAssemblyTokenKind::LParen) {
        Err(e) => Err(e),
        Ok((_, st1)) => match parse_integer(tokens, st1, u64::MAX) {
            Err(e) => Err(e),
            Ok((size, st2)) => match parse_integer(tokens, st2, u64::MAX) {
                Err(e) => Err(e),
                Ok((align, st3)) => match expect_kind(tokens, st3, IRAssemblyTokenKind::RParen) {
                    Err(e) => Err(e),
                    Ok((_, st4)) => Ok((IRType { size, align }, st4)),
                },
            },
        },
    }
}

/// `"%" word`: a value by its name.
pub open spec fn parse_ir_value(tokens: Seq<TokenView>, st: AssemblerState) -> Parsed<IRValue> {
    match expect_kind(tokens, st, IRAssemblyTokenKind::Percent) {
        Err(e) => Err(e),
        Ok((_, st1)) => match parse_symbol(tokens, st1) {
            Err(e) => Err(e),
            Ok((id, st2)) => Ok((IRValue { id }, st2)),
        },
    }
}

/// `count` values.
pub open spec fn parse_ir_values(tokens: Seq<TokenView>, st: AssemblerState, count: nat) -> Parsed<
    Seq<IRValue>,
>
    decreases count,
{
    if count == 0 {
        Ok((Seq::empty(), st))
    } else {
        match parse_ir_values(tokens, st, (count - 1) as nat) {
            Err(e) => Err(e),
            Ok((firsts, st1)) => match parse_ir_value(tokens, st1) {
                Err(e) => Err(e),
                Ok((last, st2)) => Ok((firsts.push(last), st2)),
            },
        }
    }
}

/// `count` bytes.
pub open spec fn parse_bytes(tokens: Seq<TokenView>, st: AssemblerState, count: nat) -> Parsed<
    Seq<u8>,
>
    decreases count,
{
    if count == 0 {
        Ok((Seq::empty(), st))
    } else {
        match parse_bytes(tokens, st, (count - 1) as nat) {
            Err(e) => Err(e),
            Ok((firsts, st1)) => match parse_integer(tokens, st1, u8::MAX as u64) {
                Err(e) => Err(e),
                Ok((last, st2)) => Ok((firsts.push(last as u8), st2)),
            },
        }
    }
}

/// `word | integer`: a label by its name.
pub open spec fn parse_label_ref(tokens: Seq<TokenView>, st: AssemblerState) -> Parsed<Symbol> {
    let tried = expecting(st, IRAssemblerExpected::Kind(IRAssemblyTokenKind::Word));
    if peek(tokens, st).kind == IRAssemblyTokenKind::Word {
        intern(peek(tokens, st), advance(tried))
    } else {
        match expect_kind(tokens, tried, IRAssemblyTokenKind::Integer) {
            Err(e) => Err(e),
            Ok((token, next)) => intern(token, next),
        }
    }
}

/// The words for the binary operations, in the order in which they are
/// tried.
pub open spec fn binary_operators() -> Seq<(&'static str, IRCompBinaryOperationKind)> {
    seq![
        ("+", IRCompBinaryOperationKind::Plus),
        ("-", IRCompBinaryOperationKind::Minus),
        ("*", IRCompBinaryOperationKind::Mul),
        ("/", IRCompBinaryOperationKind::Div),
        ("mod", IRCompBinaryOperationKind::Mod),
        ("&", IRCompBinaryOperationKind::BitAnd),
        ("|", IRCompBinaryOperationKind::BitOr),
        ("<<", IRCompBinaryOperationKind::BitLShift),
        (">>", IRCompBinaryOperationKind::BitRShift),
        ("==", IRCompBinaryOperationKind::Equal),
        ("!=", IRCompBinaryOperationKind::NotEqual),
        ("<", IRCompBinaryOperationKind::Lesser),
        (">", IRCompBinaryOperationKind::Greater),
        ("<=", IRCompBinaryOperationKind::LesserEqual),
        (">=", IRCompBinaryOperationKind::GreaterEqual),
    ]
}

/// The words for the unary operations, in the order in which they are
/// tried.
pub open spec fn unary_operators() -> Seq<(&'static str, IRCompUnaryOperationKind)> {
    seq![
        ("not", IRCompUnaryOperationKind::BoolNot),
        ("neg", IRCompUnaryOperationKind::SignedNegation),
        ("bitnot", IRCompUnaryOperationKind::BitNot),
    ]
}

/// The words with which the computations begin, in the order in which they
/// are tried.
pub open spec fn comp_keywords() -> Seq<&'static str> {
    seq![
        "call",
        "binop",
        "unop",
        "const",
        "alloc",
        "store",
        "load",
        "offsetstore",
        "offsetload",
        "return",
        "if",
        "jmp",
    ]
}

/// Tries the words of `keywords` from the index `from` on, in their order.
/// Gives the index of the first one that the next token is, and the state
/// behind that token; or the error for a token that is none of them.
pub open spec fn choose_keyword(
    tokens: Seq<TokenView>,
    st: AssemblerState,
    keywords: Seq<&'static str>,
    from: int,
) -> Parsed<int>
    decreases keywords.len() - from,
{
    if from < 0 || from >= keywords.len() {
        Err(error_unexpected(tokens, st))
    } else {
        let tried = expecting(st, IRAssemblerExpected::Keyword(keywords[from]));
        if is_keyword(tokens, st, keywords[from]) {
            Ok((from, advance(tried)))
        } else {
            choose_keyword(tokens, tried, keywords, from + 1)
        }
    }
}

/// `operator value value`
pub open spec fn parse_binary_operation(tokens: Seq<TokenView>, st: AssemblerState) -> Parsed<
    IRCompKindView,
> {
    match choose_keyword(
        tokens,
        st,
        binary_operators().map_values(|o: (&'static str, IRCompBinaryOperationKind)| o.0),
        0,
    ) {
        Err(e) => Err(e),
        Ok((i, st1)) => match parse_ir_value(tokens, st1) {
            Err(e) => Err(e),
            Ok((left_operand, st2)) => match parse_ir_value(tokens, st2) {
                Err(e) => Err(e),
                Ok((right_operand, st3)) => Ok(
                    (
                        IRCompKindView::BinaryOperation(
                            IRCompBinaryOperation {
                                kind: binary_operators()[i].1,
                                left_operand,
                                right_operand,
                            },
                        ),
                        st3,
                    ),
                ),
            },
        },
    }
}

/// `("not" | "neg" | "bitnot") value`
pub open spec fn parse_unary_operation(tokens: Seq<TokenView>, st: AssemblerState) -> Parsed<
    IRCompKindView,
> {
    match choose_keyword(
        tokens,
        st,
        unary_operators().map_values(|o: (&'static str, IRCompUnaryOperationKind)| o.0),
        0,
    ) {
        Err(e) => Err(e),
        Ok((i, st1)) => match parse_ir_value(tokens, st1) {
            Err(e) => Err(e),
            Ok((operand, st2)) => Ok(
                (
                    IRCompKindView::UnaryOperation(
                        IRCompUnaryOperation { kind: unary_operators()[i].1, operand },
                    ),
                    st2,
                ),
            ),
        },
    }
}

/// `word integer value*`: the name of the function, the number of
/// arguments and the arguments.
pub open spec fn parse_call(tokens: Seq<TokenView>, st: AssemblerState) -> Parsed<IRCompKindView> {
    match parse_symbol(tokens, st) {
        Err(e) => Err(e),
        Ok((name, st1)) => match parse_integer(tokens, st1, u64::MAX) {
            Err(e) => Err(e),
            Ok((count, st2)) => match parse_ir_values(tokens, st2, count as nat) {
                Err(e) => Err(e),
                Ok((args, st3)) => Ok((IRCompKindView::FunctionCall { name, args }, st3)),
            },
        },
    }
}

/// `integer integer*`: the number of bytes and the bytes.
pub open spec fn parse_constant(tokens: Seq<TokenView>, st: AssemblerState) -> Parsed<
    IRCompKindView,
> {
    match parse_integer(tokens, st, u64::MAX) {
        Err(e) => Err(e),
        Ok((count, st1)) => match parse_bytes(tokens, st1, count as nat) {
            Err(e) => Err(e),
            Ok((bytes, st2)) => Ok((IRCompKindView::Constant(bytes), st2)),
        },
    }
}

/// `irtype value value integer?`: a store, with an offset where
/// `with_offset` holds.
pub open spec fn parse_store(tokens: Seq<TokenView>, st: AssemblerState, with_offset: bool)
    -> Parsed<IRCompKindView> {
    match parse_ir_type(tokens, st) {
        Err(e) => Err(e),
        Ok((ir_type, st1)) => match parse_ir_value(tokens, st1) {
            Err(e) => Err(e),
            Ok((location, st2)) => match parse_ir_value(tokens, st2) {
                Err(e) => Err(e),
                Ok((value, st3)) => if with_offset {
                    match parse_integer(tokens, st3, u64::MAX) {
                        Err(e) => Err(e),
                        Ok((offset, st4)) => Ok(
                            (IRCompKindView::OffsetStore(ir_type, location, value, offset), st4),
                        ),
                    }
                } else {
                    Ok((IRCompKindView::Store(ir_type, location, value), st3))
                },
            },
        },
    }
}

/// `irtype value integer?`: a load, with an offset where `with_offset`
/// holds.
pub open spec fn parse_load(tokens: Seq<TokenView>, st: AssemblerState, with_offset: bool)
    -> Parsed<IRCompKindView> {
    match parse_ir_type(tokens, st) {
        Err(e) => Err(e),
        Ok((ir_type, st1)) => match parse_ir_value(tokens, st1) {
            Err(e) => Err(e),
            Ok((location, st2)) => if with_offset {
                match parse_integer(tokens, st2, u64::MAX) {
                    Err(e) => Err(e),
                    Ok((offset, st3)) => Ok(
                        (IRCompKindView::OffsetLoad(ir_type, location, offset), st3),
                    ),
                }
            } else {
                Ok((IRCompKindView::Load(ir_type, location), st2))
            },
        },
    }
}

/// `value labelref`
pub open spec fn parse_if(tokens: Seq<TokenView>, st: AssemblerState) -> Parsed<IRCompKindView> {
    match parse_ir_value(tokens, st) {
        Err(e) => Err(e),
        Ok((value, st1)) => match parse_label_ref(tokens, st1) {
            Err(e) => Err(e),
            Ok((label, st2)) => Ok((IRCompKindView::If(value, label), st2)),
        },
    }
}

/// A computation, which begins with one of the words of
/// [`comp_keywords`].
#[verifier::opaque]
pub open spec fn parse_ir_comp(tokens: Seq<TokenView>, st: AssemblerState) -> Parsed<
    IRCompKindView,
> {
    match choose_keyword(tokens, st, comp_keywords(), 0) {
        Err(e) => Err(e),
        Ok((i, st1)) => if i == 0 {
            parse_call(tokens, st1)
        } else if i == 1 {
            parse_binary_operation(tokens, st1)
        } else if i == 2 {
            parse_unary_operation(tokens, st1)
        } else if i == 3 {
            parse_constant(tokens, st1)
        } else if i == 4 {
            match parse_ir_type(tokens, st1) {
                Err(e) => Err(e),
                Ok((ir_type, st2)) => Ok((IRCompKindView::Alloc(ir_type), st2)),
            }
        } else if i == 5 {
            parse_store(tokens, st1, false)
        } else if i == 6 {
            parse_load(tokens, st1, false)
        } else if i == 7 {
            parse_store(tokens, st1, true)
        } else if i == 8 {
            parse_load(tokens, st1, true)
        } else if i == 9 {
            match parse_ir_value(tokens, st1) {
                Err(e) => Err(e),
                Ok((value, st2)) => Ok((IRCompKindView::Return(value), st2)),
            }
        } else if i == 10 {
            parse_if(tokens, st1)
        } else {
            match parse_label_ref(tokens, st1) {
                Err(e) => Err(e),
                Ok((label, st2)) => Ok((IRCompKindView::Jmp(label), st2)),
            }
        },
    }
}

/// `"%" word ":" "="`, where the next token is a percent sign: the name that
/// a parameter or a computation gets. Otherwise no name.
pub open spec fn parse_binding(tokens: Seq<TokenView>, st: AssemblerState) -> Parsed<
    Option<Symbol>,
> {
    let tried = expecting(st, IRAssemblerExpected::Kind(IRAssemblyTokenKind::Percent));
    if peek(tokens, st).kind == IRAssemblyTokenKind::Percent {
        match parse_symbol(tokens, advance(tried)) {
            Err(e) => Err(e),
            Ok((name, st1)) => match expect_kind(tokens, st1, IRAssemblyTokenKind::Colon) {
                Err(e) => Err(e),
                Ok((_, st2)) => match expect_keyword(tokens, st2, "=") {
                    Err(e) => Err(e),
                    Ok((_, st3)) => Ok((Some(name), st3)),
                },
            },
        }
    } else {
        Ok((None, tried))
    }
}

/// The parameters of a function, up to the arrow.
pub open spec fn parse_params(
    tokens: Seq<TokenView>,
    st: AssemblerState,
    params: Seq<(Option<Symbol>, IRType)>,
) -> Parsed<Seq<(Option<Symbol>, IRType)>>
    decreases tokens.len() - st.pos,
{
    let tried = expecting(st, IRAssemblerExpected::Kind(IRAssemblyTokenKind::Arrow));
    if peek(tokens, st).kind == IRAssemblyTokenKind::Arrow {
        Ok((params, advance(tried)))
    } else {
        match parse_binding(tokens, tried) {
            Err(e) => Err(e),
            Ok((name, st1)) => match parse_ir_type(tokens, st1) {
                Err(e) => Err(e),
                Ok((ir_type, st2)) => if st.pos < st2.pos <= tokens.len() {
                    parse_params(tokens, st2, params.push((name, ir_type)))
                } else {
                    Err(error_unexpected(tokens, st2))
                },
            },
        }
    }
}

/// The computations and labels of a function, up to `endfn`. A label
/// stands for the computation that follows it.
pub open spec fn parse_body(
    tokens: Seq<TokenView>,
    st: AssemblerState,
    comps: Seq<IRCompView>,
    label_defs: Seq<(Symbol, u64)>,
) -> Parsed<(Seq<IRCompView>, Seq<(Symbol, u64)>)>
    decreases tokens.len() - st.pos,
{
    let tried = expecting(st, IRAssemblerExpected::Keyword("endfn"));
    let tried_label = expecting(tried, IRAssemblerExpected::Kind(IRAssemblyTokenKind::Colon));
    if is_keyword(tokens, st, "endfn") {
        Ok(((comps, label_defs), advance(tried)))
    } else if peek(tokens, st).kind == IRAssemblyTokenKind::Colon {
        match parse_symbol(tokens, advance(tried_label)) {
            Err(e) => Err(e),
            Ok((label, st1)) => if st.pos < st1.pos <= tokens.len() {
                parse_body(tokens, st1, comps, label_defs.push((label, comps.len() as u64)))
            } else {
                Err(error_unexpected(tokens, st1))
            },
        }
    } else {
        match parse_binding(tokens, tried_label) {
            Err(e) => Err(e),
            Ok((id, st1)) => match parse_ir_comp(tokens, st1) {
                Err(e) => Err(e),
                Ok((kind, st2)) => if st.pos < st2.pos <= tokens.len() {
                    parse_body(tokens, st2, comps.push(IRCompView { kind, id }), label_defs)
                } else {
                    Err(error_unexpected(tokens, st2))
                },
            },
        }
    }
}

/// A function, behind its `fn`.
#[verifier::opaque]
pub open spec fn parse_function(tokens: Seq<TokenView>, st: AssemblerState) -> Parsed<
    IRFunctionView,
> {
    match parse_symbol(tokens, st) {
        Err(e) => Err(e),
        Ok((name, st1)) => match expect_kind(tokens, st1, IRAssemblyTokenKind::Colon) {
            Err(e) => Err(e),
            Ok((_, st2)) => match parse_params(tokens, st2, Seq::empty()) {
                Err(e) => Err(e),
                Ok((params, st3)) => match parse_ir_type(tokens, st3) {
                    Err(e) => Err(e),
                    Ok((return_type, st4)) => match parse_body(
                        tokens,
                        st4,
                        Seq::empty(),
                        Seq::empty(),
                    ) {
                        Err(e) => Err(e),
                        Ok(((comps, label_defs), st5)) => Ok(
                            (IRFunctionView { name, return_type, params, comps, label_defs }, st5),
                        ),
                    },
                },
            },
        }
    }
}

/// The functions of a module, up to the end of the text.
pub open spec fn parse_ir_module(
    tokens: Seq<TokenView>,
    st: AssemblerState,
    items: Seq<IRFunctionView>,
) -> Parsed<Seq<IRFunctionView>>
    decreases tokens.len() - st.pos,
{
    let tried = expecting(st, IRAssemblerExpected::Keyword("fn"));
    let tried_end = expecting(tried, IRAssemblerExpected::Kind(IRAssemblyTokenKind::Eof));
    if is_keyword(tokens, st, "fn") {
        match parse_function(tokens, advance(tried)) {
            Err(e) => Err(e),
            Ok((item, st1)) => if st.pos < st1.pos <= tokens.len() {
                parse_ir_module(tokens, st1, items.push(item))
            } else {
                Err(error_unexpected(tokens, st1))
            },
        }
    } else if peek(tokens, st).kind == IRAssemblyTokenKind::Eof {
        Ok((items, tried_end))
    } else {
        Err(error_unexpected(tokens, tried_end))
    }
}

/// The state in which the assembler begins.
pub open spec fn initial_state(names: Map<Seq<char>, u64>, count: nat) -> AssemblerState {
    AssemblerState { pos: 0, expected: Seq::empty(), names, count }
}

} // verus!
