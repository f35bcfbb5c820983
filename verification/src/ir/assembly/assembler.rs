//! The assembler: from the textual format to a module.

use crate::globals::{StringInterner, Symbol};
use crate::ir::assembly::grammar::{
    advance, binary_operators, choose_keyword, comp_keywords, error_at, error_unexpected,
    expect_keyword, expect_kind, expected_list_text, expecting, initial_state, intern, is_keyword,
    kind_name, parse_binary_operation, parse_binding, parse_body, parse_bytes, parse_call,
    parse_constant, parse_function, parse_if, parse_integer, parse_ir_comp, parse_ir_module,
    parse_ir_type, parse_ir_value, parse_ir_values, parse_label_ref, parse_load, parse_params,
    parse_store, parse_symbol, parse_unary_operation, peek, unary_operators, AssemblerState,
    ErrorView, IRAssemblerExpected, Parsed,
};
use crate::ir::assembly::tokens::{
    assembly_token_stream, lex, tokens_view, IRAssemblyToken, IRAssemblyTokenKind, TokenView,
};
use crate::ir::comp::{
    comps_view, IRComp, IRCompBinaryOperation, IRCompBinaryOperationKind, IRCompConstant,
    IRCompFunctionCall, IRCompKind, IRCompKindView, IRCompUnaryOperation,
    IRCompUnaryOperationKind, IRCompView,
};
use crate::ir::{
    items_view, IRFunctionView, IRItem, IRItemFunctionDef, IRItemKind, IRModule, IRType, IRValue,
};
use crate::text::{
    chars_of_str, is_digit, parse_decimal, push_str, string_from_chars, string_of_range,
};
use vstd::prelude::*;

verus! {

/// Why a text is no module.
#[derive(Debug)]
pub struct IRAssemblerError {
    pub message: String,
    /// The offset of the first byte of the token at which the error arose.
    pub start: usize,
    /// The number of line feeds before that token.
    pub line: usize,
}

impl View for IRAssemblerError {
    type V = ErrorView;

    open spec fn view(&self) -> ErrorView {
        ErrorView { message: self.message@, start: self.start as nat, line: self.line as nat }
    }
}

/// The assembler at work on the tokens of a text.
pub struct IRAssembler {
    tokens: Vec<IRAssemblyToken>,
    chars: Vec<char>,
    pos: usize,
    expected: Vec<IRAssemblerExpected>,
    interner: StringInterner,
}

/// Whether `names` holds every string of `old` with the same index.
pub open spec fn names_extend(old: Map<Seq<char>, u64>, names: Map<Seq<char>, u64>) -> bool {
    forall|s: Seq<char>| #[trigger] old.dom().contains(s) ==> names.dom().contains(s) && names[s] == old[s]
}

fn kind_text(kind: IRAssemblyTokenKind) -> (r: &'static str)
    ensures
        r@ == kind_name(kind),
{
    match kind {
        IRAssemblyTokenKind::Word => "Word",
        IRAssemblyTokenKind::Integer => "Integer",
        IRAssemblyTokenKind::Percent => "Percent",
        IRAssemblyTokenKind::Colon => "Colon",
        IRAssemblyTokenKind::Arrow => "Arrow",
        IRAssemblyTokenKind::LParen => "LParen",
        IRAssemblyTokenKind::RParen => "RParen",
        IRAssemblyTokenKind::UnexpectedCharacter => "UnexpectedCharacter",
        IRAssemblyTokenKind::Eof => "Eof",
    }
}

/// Appends how the expectations read in a message.
fn push_expected_list(out: &mut Vec<char>, expected: &Vec<IRAssemblerExpected>)
    ensures
        final(out)@ == old(out)@ + expected_list_text(expected@),
{
    let mut i: usize = 0;
    while i < expected.len()
        invariant
            i <= expected.len(),
            out@ == old(out)@ + expected_list_text(expected@.take(i as int)),
        decreases expected.len() - i,
    {
        let ghost before = out@;
        if i > 0 {
            push_str(out, ", ");
        }
        match expected[i] {
            IRAssemblerExpected::Keyword(keyword) => {
                push_str(out, "Keyword(\"");
                push_str(out, keyword);
                push_str(out, "\")");
            },
            IRAssemblerExpected::Kind(kind) => {
                push_str(out, "Kind(");
                push_str(out, kind_text(kind));
                push_str(out, ")");
            },
        }
        proof {
            let next = expected@.take(i + 1);
            assert(next.drop_last() =~= expected@.take(i as int));
            assert(next.last() == expected@[i as int]);
            if i == 0 {
                assert(next[0] == expected@[0]);
                assert(expected_list_text(expected@.take(0)) =~= Seq::<char>::empty());
                assert(out@ =~= old(out)@ + expected_list_text(next));
            } else {
                assert(out@ =~= old(out)@ + expected_list_text(next));
            }
        }
        i = i + 1;
    }
    proof {
        assert(expected@.take(expected.len() as int) =~= expected@);
    }
}

impl IRAssembler {
    /// The tokens with their texts.
    pub closed spec fn toks(&self) -> Seq<TokenView> {
        tokens_view(self.tokens@, self.chars@)
    }

    /// Where the assembler stands.
    pub closed spec fn state(&self) -> AssemblerState {
        AssemblerState {
            pos: self.pos as int,
            expected: self.expected@,
            names: self.interner.names(),
            count: self.interner.count(),
        }
    }

    /// The tokens end with the end of the text and lie within the text; the
    /// assembler stands at one of them.
    pub closed spec fn wf(&self) -> bool {
        &&& self.pos < self.tokens.len()
        &&& self.interner.wf()
        &&& forall|i: int|
            0 <= i < self.tokens.len() ==> (#[trigger] self.tokens@[i]).within(self.chars@)
        &&& forall|i: int|
            0 <= i < self.tokens.len() ==> ((#[trigger] self.tokens@[i]).kind
                == IRAssemblyTokenKind::Eof <==> i == self.tokens.len() - 1)
        &&& forall|i: int|
            0 <= i < self.tokens.len() && (#[trigger] self.tokens@[i]).kind
                == IRAssemblyTokenKind::Integer ==> forall|j: int|
                self.tokens@[i].first <= j < self.tokens@[i].end ==> is_digit(self.chars@[j])
    }

    /// The assembler works on the same text as `old`, and knows every
    /// string that `old` knows.
    pub closed spec fn follows(&self, old: &Self) -> bool {
        &&& self.tokens == old.tokens
        &&& self.chars == old.chars
        &&& self.pos >= old.pos
        &&& names_extend(old.interner.names(), self.interner.names())
    }

    /// The assembler has got further than `old`.
    pub closed spec fn beyond(&self, old: &Self) -> bool {
        self.pos > old.pos
    }

    /// An assembler at the first token of `chars`.
    fn new(chars: Vec<char>, interner: StringInterner) -> (r: Self)
        requires
            interner.wf(),
        ensures
            r.wf(),
            r.toks() == lex(chars@, 0),
            r.state() == initial_state(interner.names(), interner.count()),
            r.interner == interner,
    {
        let tokens = assembly_token_stream(&chars);
        Self { tokens, chars, pos: 0, expected: Vec::new(), interner }
    }

    fn peek(&self) -> (token: IRAssemblyToken)
        requires
            self.wf(),
        ensures
            token.view_in(self.chars@) == peek(self.toks(), self.state()),
            token == self.tokens@[self.pos as int],
            token.within(self.chars@),
    {
        self.tokens[self.pos]
    }

    /// Whether the text of `token` is `text`.
    fn token_is(&self, token: IRAssemblyToken, text: &str) -> (r: bool)
        requires
            token.within(self.chars@),
        ensures
            r == (token.view_in(self.chars@).text == text@),
    {
        let wanted = chars_of_str(text);
        if token.end - token.first != wanted.len() {
            return false;
        }
        let ghost have = self.chars@.subrange(token.first as int, token.end as int);
        let mut i: usize = 0;
        while i < wanted.len()
            invariant
                i <= wanted.len(),
                token.within(self.chars@),
                token.end - token.first == wanted.len(),
                wanted@ == text@,
                have == self.chars@.subrange(token.first as int, token.end as int),
                forall|j: int| 0 <= j < i ==> have[j] == wanted@[j],
            decreases wanted.len() - i,
        {
            if self.chars[token.first + i] != wanted[i] {
                assert(have[i as int] != wanted@[i as int]);
                return false;
            }
            i = i + 1;
        }
        assert(have =~= wanted@);
        true
    }

    fn get_token_string(&self, token: IRAssemblyToken) -> (r: String)
        requires
            token.within(self.chars@),
        ensures
            r@ == token.view_in(self.chars@).text,
    {
        string_of_range(&self.chars, token.first, token.end)
    }

    fn advance_token(&mut self)
        requires
            old(self).wf(),
            old(self).tokens@[old(self).pos as int].kind != IRAssemblyTokenKind::Eof,
        ensures
            final(self).wf(),
            final(self).follows(old(self)),
            final(self).beyond(old(self)),
            final(self).toks() == old(self).toks(),
            final(self).state() == advance(old(self).state()),
    {
        self.expected = Vec::new();
        self.pos = self.pos + 1;
    }

    fn check_kind(&mut self, kind: IRAssemblyTokenKind) -> (r: bool)
        requires
            old(self).wf(),
        ensures
            final(self).wf(),
            final(self).follows(old(self)),
            final(self).toks() == old(self).toks(),
            final(self).state() == expecting(old(self).state(), IRAssemblerExpected::Kind(kind)),
            r == (peek(old(self).toks(), old(self).state()).kind == kind),
            r == (final(self).tokens@[final(self).pos as int].kind == kind),
    {
        self.expected.push(IRAssemblerExpected::Kind(kind));
        let token = self.tokens[self.pos];
        token.kind == kind
    }

    fn check_keyword(&mut self, keyword: &'static str) -> (r: bool)
        requires
            old(self).wf(),
        ensures
            final(self).wf(),
            final(self).follows(old(self)),
            final(self).toks() == old(self).toks(),
            final(self).state() == expecting(
                old(self).state(),
                IRAssemblerExpected::Keyword(keyword),
            ),
            r == is_keyword(old(self).toks(), old(self).state(), keyword),
            r ==> final(self).tokens@[final(self).pos as int].kind == IRAssemblyTokenKind::Word,
    {
        self.expected.push(IRAssemblerExpected::Keyword(keyword));
        let token = self.tokens[self.pos];
        token.kind == IRAssemblyTokenKind::Word && self.token_is(token, keyword)
    }

    /// The error at `token` with the given message.
    fn error_at(&self, token: IRAssemblyToken, message: &str) -> (e: IRAssemblerError)
        ensures
            e@ == error_at(token.view_in(self.chars@), message@),
    {
        IRAssemblerError { message: message.to_owned(), start: token.start, line: token.line }
    }

    fn error_unexpected(&self) -> (e: IRAssemblerError)
        requires
            self.wf(),
        ensures
            e@ == error_unexpected(self.toks(), self.state()),
    {
        let token = self.peek();
        let mut message: Vec<char> = Vec::new();
        push_str(&mut message, "Expected \"[");
        push_expected_list(&mut message, &self.expected);
        push_str(&mut message, "]\" got \"");
        let mut i: usize = token.first;
        while i < token.end
            invariant
                token.first <= i <= token.end <= self.chars.len(),
                message@ == "Expected \"["@ + expected_list_text(self.expected@) + "]\" got \""@
                    + self.chars@.subrange(token.first as int, i as int),
            decreases token.end - i,
        {
            message.push(self.chars[i]);
            i = i + 1;
            assert(self.chars@.subrange(token.first as int, i as int) =~= self.chars@.subrange(
                token.first as int,
                i - 1,
            ).push(self.chars@[i - 1]));
        }
        push_str(&mut message, "\"");
        IRAssemblerError {
            message: string_from_chars(&message),
            start: token.start,
            line: token.line,
        }
    }

    fn expect_kind(&mut self, kind: IRAssemblyTokenKind) -> (r: Result<
        IRAssemblyToken,
        IRAssemblerError,
    >)
        requires
            old(self).wf(),
            kind != IRAssemblyTokenKind::Eof,
        ensures
            final(self).wf(),
            final(self).follows(old(self)),
            final(self).toks() == old(self).toks(),
            match r {
                Ok(token) => expect_kind(old(self).toks(), old(self).state(), kind) == Ok::<
                    (TokenView, AssemblerState),
                    ErrorView,
                >((token.view_in(final(self).chars@), final(self).state()))
                    && final(self).beyond(old(self)) && token.within(final(self).chars@)
                    && token.kind == kind && token == old(self).tokens@[old(self).pos as int],
                Err(e) => expect_kind(old(self).toks(), old(self).state(), kind) == Err::<
                    (TokenView, AssemblerState),
                    ErrorView,
                >(e@),
            },
    {
        if self.check_kind(kind) {
            let token = self.peek();
            self.advance_token();
            Ok(token)
        } else {
            Err(self.error_unexpected())
        }
    }

    fn expect_keyword(&mut self, keyword: &'static str) -> (r: Result<(), IRAssemblerError>)
        requires
            old(self).wf(),
        ensures
            final(self).wf(),
            final(self).follows(old(self)),
            final(self).toks() == old(self).toks(),
            match r {
                Ok(()) => expect_keyword(old(self).toks(), old(self).state(), keyword) == Ok::<
                    ((), AssemblerState),
                    ErrorView,
                >(((), final(self).state())) && final(self).beyond(old(self)),
                Err(e) => expect_keyword(old(self).toks(), old(self).state(), keyword) == Err::<
                    ((), AssemblerState),
                    ErrorView,
                >(e@),
            },
    {
        if self.check_keyword(keyword) {
            self.advance_token();
            Ok(())
        } else {
            Err(self.error_unexpected())
        }
    }

    /// The symbol of the text of `token`.
    fn intern(&mut self, token: IRAssemblyToken) -> (r: Result<Symbol, IRAssemblerError>)
        requires
            old(self).wf(),
            token.within(old(self).chars@),
        ensures
            final(self).wf(),
            final(self).follows(old(self)),
            final(self).pos == old(self).pos,
            final(self).toks() == old(self).toks(),
            match r {
                Ok(symbol) => intern(token.view_in(old(self).chars@), old(self).state()) == Ok::<
                    (Symbol, AssemblerState),
                    ErrorView,
                >((symbol, final(self).state())),
                Err(e) => intern(token.view_in(old(self).chars@), old(self).state()) == Err::<
                    (Symbol, AssemblerState),
                    ErrorView,
                >(e@),
            },
    {
        let text = self.get_token_string(token);
        match self.interner.try_intern(text.as_str()) {
            Some(symbol) => Ok(symbol),
            None => Err(self.error_at(token, "Too many symbols")),
        }
    }
}

} // verus!

verus! {

/// The words of [`comp_keywords`].
fn comp_keyword_list() -> (r: Vec<&'static str>)
    ensures
        r@ == comp_keywords(),
{
    let mut r: Vec<&'static str> = Vec::new();
    r.push("call");
    r.push("binop");
    r.push("unop");
    r.push("const");
    r.push("alloc");
    r.push("store");
    r.push("load");
    r.push("offsetstore");
    r.push("offsetload");
    r.push("return");
    r.push("if");
    r.push("jmp");
    assert(r@ =~= comp_keywords());
    r
}

/// The operators of [`binary_operators`].
fn binary_operator_list() -> (r: Vec<(&'static str, IRCompBinaryOperationKind)>)
    ensures
        r@ == binary_operators(),
{
    let mut r: Vec<(&'static str, IRCompBinaryOperationKind)> = Vec::new();
    r.push(("+", IRCompBinaryOperationKind::Plus));
    r.push(("-", IRCompBinaryOperationKind::Minus));
    r.push(("*", IRCompBinaryOperationKind::Mul));
    r.push(("/", IRCompBinaryOperationKind::Div));
    r.push(("mod", IRCompBinaryOperationKind::Mod));
    r.push(("&", IRCompBinaryOperationKind::BitAnd));
    r.push(("|", IRCompBinaryOperationKind::BitOr));
    r.push(("<<", IRCompBinaryOperationKind::BitLShift));
    r.push((">>", IRCompBinaryOperationKind::BitRShift));
    r.push(("==", IRCompBinaryOperationKind::Equal));
    r.push(("!=", IRCompBinaryOperationKind::NotEqual));
    r.push(("<", IRCompBinaryOperationKind::Lesser));
    r.push((">", IRCompBinaryOperationKind::Greater));
    r.push(("<=", IRCompBinaryOperationKind::LesserEqual));
    r.push((">=", IRCompBinaryOperationKind::GreaterEqual));
    assert(r@ =~= binary_operators());
    r
}

/// The operators of [`unary_operators`].
fn unary_operator_list() -> (r: Vec<(&'static str, IRCompUnaryOperationKind)>)
    ensures
        r@ == unary_operators(),
{
    let mut r: Vec<(&'static str, IRCompUnaryOperationKind)> = Vec::new();
    r.push(("not", IRCompUnaryOperationKind::BoolNot));
    r.push(("neg", IRCompUnaryOperationKind::SignedNegation));
    r.push(("bitnot", IRCompUnaryOperationKind::BitNot));
    assert(r@ =~= unary_operators());
    r
}

impl IRAssembler {
    /// A number that is at most `max`.
    fn parse_integer(&mut self, max: u64) -> (r: Result<u64, IRAssemblerError>)
        requires
            old(self).wf(),
        ensures
            final(self).wf(),
            final(self).follows(old(self)),
            final(self).toks() == old(self).toks(),
            match r {
                Ok(value) => parse_integer(old(self).toks(), old(self).state(), max) == Ok::<
                    (u64, AssemblerState),
                    ErrorView,
                >((value, final(self).state())) && final(self).beyond(old(self)),
                Err(e) => parse_integer(old(self).toks(), old(self).state(), max) == Err::<
                    (u64, AssemblerState),
                    ErrorView,
                >(e@),
            },
    {
        let token = match self.expect_kind(IRAssemblyTokenKind::Integer) {
            Ok(token) => token,
            Err(e) => {
                return Err(e);
            },
        };
        match parse_decimal(&self.chars, token.first, token.end, max) {
            Some(value) => Ok(value),
            None => if max == u8::MAX as u64 {
                Err(self.error_at(token, "Expected integer to fit into 8 bits"))
            } else {
                Err(self.error_at(token, "Expected integer to fit into 64 bits"))
            },
        }
    }

    fn parse_integer_u64(&mut self) -> (r: Result<u64, IRAssemblerError>)
        requires
            old(self).wf(),
        ensures
            final(self).wf(),
            final(self).follows(old(self)),
            final(self).toks() == old(self).toks(),
            match r {
                Ok(value) => parse_integer(old(self).toks(), old(self).state(), u64::MAX) == Ok::<
                    (u64, AssemblerState),
                    ErrorView,
                >((value, final(self).state())) && final(self).beyond(old(self)),
                Err(e) => parse_integer(old(self).toks(), old(self).state(), u64::MAX) == Err::<
                    (u64, AssemblerState),
                    ErrorView,
                >(e@),
            },
    {
        self.parse_integer(u64::MAX)
    }

    fn parse_integer_u8(&mut self) -> (r: Result<u8, IRAssemblerError>)
        requires
            old(self).wf(),
        ensures
            final(self).wf(),
            final(self).follows(old(self)),
            final(self).toks() == old(self).toks(),
            match r {
                Ok(value) => parse_integer(old(self).toks(), old(self).state(), u8::MAX as u64)
                    == Ok::<(u64, AssemblerState), ErrorView>(
                    (value as u64, final(self).state()),
                ) && final(self).beyond(old(self)),
                Err(e) => parse_integer(old(self).toks(), old(self).state(), u8::MAX as u64)
                    == Err::<(u64, AssemblerState), ErrorView>(e@),
            },
    {
        match self.parse_integer(u8::MAX as u64) {
            Ok(value) => Ok(value as u8),
            Err(e) => Err(e),
        }
    }

    /// A word, as a symbol.
    fn parse_symbol(&mut self) -> (r: Result<Symbol, IRAssemblerError>)
        requires
            old(self).wf(),
        ensures
            final(self).wf(),
            final(self).follows(old(self)),
            final(self).toks() == old(self).toks(),
            match r {
                Ok(symbol) => parse_symbol(old(self).toks(), old(self).state()) == Ok::<
                    (Symbol, AssemblerState),
                    ErrorView,
                >((symbol, final(self).state())) && final(self).beyond(old(self)),
                Err(e) => parse_symbol(old(self).toks(), old(self).state()) == Err::<
                    (Symbol, AssemblerState),
                    ErrorView,
                >(e@),
            },
    {
        match self.expect_kind(IRAssemblyTokenKind::Word) {
            Err(e) => Err(e),
            Ok(token) => self.intern(token),
        }
    }

    fn parse_ir_type(&mut self) -> (r: Result<IRType, IRAssemblerError>)
        requires
            old(self).wf(),
        ensures
            final(self).wf(),
            final(self).follows(old(self)),
            final(self).toks() == old(self).toks(),
            match r {
                Ok(ir_type) => parse_ir_type(old(self).toks(), old(self).state()) == Ok::<
                    (IRType, AssemblerState),
                    ErrorView,
                >((ir_type, final(self).state())) && final(self).beyond(old(self)),
                Err(e) => parse_ir_type(old(self).toks(), old(self).state()) == Err::<
                    (IRType, AssemblerState),
                    ErrorView,
                >(e@),
            },
    {
        match self.expect_kind(IRAssemblyTokenKind::LParen) {
            Err(e) => {
                return Err(e);
            },
            Ok(_) => {},
        }
        let size = match self.parse_integer_u64() {
            Err(e) => {
                return Err(e);
            },
            Ok(size) => size,
        };
        let align = match self.parse_integer_u64() {
            Err(e) => {
                return Err(e);
            },
            Ok(align) => align,
        };
        match self.expect_kind(IRAssemblyTokenKind::RParen) {
            Err(e) => Err(e),
            Ok(_) => Ok(IRType { size, align }),
        }
    }

    fn parse_ir_value(&mut self) -> (r: Result<IRValue, IRAssemblerError>)
        requires
            old(self).wf(),
        ensures
            final(self).wf(),
            final(self).follows(old(self)),
            final(self).toks() == old(self).toks(),
            match r {
                Ok(value) => parse_ir_value(old(self).toks(), old(self).state()) == Ok::<
                    (IRValue, AssemblerState),
                    ErrorView,
                >((value, final(self).state())) && final(self).beyond(old(self)),
                Err(e) => parse_ir_value(old(self).toks(), old(self).state()) == Err::<
                    (IRValue, AssemblerState),
                    ErrorView,
                >(e@),
            },
    {
        match self.expect_kind(IRAssemblyTokenKind::Percent) {
            Err(e) => {
                return Err(e);
            },
            Ok(_) => {},
        }
        match self.parse_symbol() {
            Err(e) => Err(e),
            Ok(id) => Ok(IRValue { id }),
        }
    }

    /// `count` values.
    fn parse_ir_values(&mut self, count: u64) -> (r: Result<Vec<IRValue>, IRAssemblerError>)
        requires
            old(self).wf(),
        ensures
            final(self).wf(),
            final(self).follows(old(self)),
            final(self).toks() == old(self).toks(),
            match r {
                Ok(values) => parse_ir_values(old(self).toks(), old(self).state(), count as nat)
                    == Ok::<(Seq<IRValue>, AssemblerState), ErrorView>(
                    (values@, final(self).state()),
                ),
                Err(e) => parse_ir_values(old(self).toks(), old(self).state(), count as nat)
                    == Err::<(Seq<IRValue>, AssemblerState), ErrorView>(e@),
            },
    {
        let mut values: Vec<IRValue> = Vec::new();
        let mut i: u64 = 0;
        while i < count
            invariant
                i <= count,
                self.wf(),
                self.follows(old(self)),
                self.toks() == old(self).toks(),
                parse_ir_values(old(self).toks(), old(self).state(), i as nat) == Ok::<
                    (Seq<IRValue>, AssemblerState),
                    ErrorView,
                >((values@, self.state())),
            decreases count - i,
        {
            match self.parse_ir_value() {
                Err(e) => {
                    proof {
                        lemma_parse_ir_values_error(
                            old(self).toks(),
                            old(self).state(),
                            (i + 1) as nat,
                            count as nat,
                        );
                    }
                    return Err(e);
                },
                Ok(value) => {
                    values.push(value);
                },
            }
            i = i + 1;
        }
        Ok(values)
    }

    /// `count` bytes.
    fn parse_bytes(&mut self, count: u64) -> (r: Result<Vec<u8>, IRAssemblerError>)
        requires
            old(self).wf(),
        ensures
            final(self).wf(),
            final(self).follows(old(self)),
            final(self).toks() == old(self).toks(),
            match r {
                Ok(bytes) => parse_bytes(old(self).toks(), old(self).state(), count as nat)
                    == Ok::<(Seq<u8>, AssemblerState), ErrorView>((bytes@, final(self).state())),
                Err(e) => parse_bytes(old(self).toks(), old(self).state(), count as nat) == Err::<
                    (Seq<u8>, AssemblerState),
                    ErrorView,
                >(e@),
            },
    {
        let mut bytes: Vec<u8> = Vec::new();
        let mut i: u64 = 0;
        while i < count
            invariant
                i <= count,
                self.wf(),
                self.follows(old(self)),
                self.toks() == old(self).toks(),
                parse_bytes(old(self).toks(), old(self).state(), i as nat) == Ok::<
                    (Seq<u8>, AssemblerState),
                    ErrorView,
                >((bytes@, self.state())),
            decreases count - i,
        {
            match self.parse_integer_u8() {
                Err(e) => {
                    proof {
                        lemma_parse_bytes_error(
                            old(self).toks(),
                            old(self).state(),
                            (i + 1) as nat,
                            count as nat,
                        );
                    }
                    return Err(e);
                },
                Ok(byte) => {
                    bytes.push(byte);
                },
            }
            i = i + 1;
        }
        Ok(bytes)
    }

    fn parse_label_ref(&mut self) -> (r: Result<Symbol, IRAssemblerError>)
        requires
            old(self).wf(),
        ensures
            final(self).wf(),
            final(self).follows(old(self)),
            final(self).toks() == old(self).toks(),
            match r {
                Ok(symbol) => parse_label_ref(old(self).toks(), old(self).state()) == Ok::<
                    (Symbol, AssemblerState),
                    ErrorView,
                >((symbol, final(self).state())) && final(self).beyond(old(self)),
                Err(e) => parse_label_ref(old(self).toks(), old(self).state()) == Err::<
                    (Symbol, AssemblerState),
                    ErrorView,
                >(e@),
            },
    {
        if self.check_kind(IRAssemblyTokenKind::Word) {
            let token = self.peek();
            self.advance_token();
            self.intern(token)
        } else {
            match self.expect_kind(IRAssemblyTokenKind::Integer) {
                Err(e) => Err(e),
                Ok(token) => self.intern(token),
            }
        }
    }

    /// Tries the words of `keywords` in their order.
    fn choose_keyword(&mut self, keywords: &Vec<&'static str>) -> (r: Result<
        usize,
        IRAssemblerError,
    >)
        requires
            old(self).wf(),
        ensures
            final(self).wf(),
            final(self).follows(old(self)),
            final(self).toks() == old(self).toks(),
            match r {
                Ok(i) => choose_keyword(old(self).toks(), old(self).state(), keywords@, 0) == Ok::<
                    (int, AssemblerState),
                    ErrorView,
                >((i as int, final(self).state())) && final(self).beyond(old(self)) && i
                    < keywords.len(),
                Err(e) => choose_keyword(old(self).toks(), old(self).state(), keywords@, 0)
                    == Err::<(int, AssemblerState), ErrorView>(e@),
            },
    {
        let mut i: usize = 0;
        while i < keywords.len()
            invariant
                i <= keywords.len(),
                self.wf(),
                self.follows(old(self)),
                self.toks() == old(self).toks(),
                self.pos == old(self).pos,
                choose_keyword(old(self).toks(), old(self).state(), keywords@, 0)
                    == choose_keyword(self.toks(), self.state(), keywords@, i as int),
            decreases keywords.len() - i,
        {
            if self.check_keyword(keywords[i]) {
                self.advance_token();
                return Ok(i);
            }
            i = i + 1;
        }
        Err(self.error_unexpected())
    }
}

proof fn lemma_parse_ir_values_error(
    tokens: Seq<TokenView>,
    st: AssemblerState,
    i: nat,
    count: nat,
)
    requires
        i <= count,
        parse_ir_values(tokens, st, i) is Err,
    ensures
        parse_ir_values(tokens, st, count) == parse_ir_values(tokens, st, i),
    decreases count - i,
{
    if i < count {
        lemma_parse_ir_values_error(tokens, st, i + 1, count);
    }
}

proof fn lemma_parse_bytes_error(tokens: Seq<TokenView>, st: AssemblerState, i: nat, count: nat)
    requires
        i <= count,
        parse_bytes(tokens, st, i) is Err,
    ensures
        parse_bytes(tokens, st, count) == parse_bytes(tokens, st, i),
    decreases count - i,
{
    if i < count {
        lemma_parse_bytes_error(tokens, st, i + 1, count);
    }
}

} // verus!

verus! {

/// The words of a table of operators.
fn operator_words<K: Copy>(table: &Vec<(&'static str, K)>) -> (r: Vec<&'static str>)
    ensures
        r@ == table@.map_values(|o: (&'static str, K)| o.0),
{
    let mut r: Vec<&'static str> = Vec::new();
    let mut i: usize = 0;
    while i < table.len()
        invariant
            i <= table.len(),
            r@ == table@.take(i as int).map_values(|o: (&'static str, K)| o.0),
        decreases table.len() - i,
    {
        r.push(table[i].0);
        i = i + 1;
        assert(r@ =~= table@.take(i as int).map_values(|o: (&'static str, K)| o.0));
    }
    assert(table@.take(table.len() as int) =~= table@);
    r
}

impl IRAssembler {
    fn parse_binary_operation(&mut self) -> (r: Result<IRCompKind, IRAssemblerError>)
        requires
            old(self).wf(),
        ensures
            final(self).wf(),
            final(self).follows(old(self)),
            final(self).toks() == old(self).toks(),
            match r {
                Ok(kind) => parse_binary_operation(old(self).toks(), old(self).state()) == Ok::<
                    (IRCompKindView, AssemblerState),
                    ErrorView,
                >((kind@, final(self).state())) && final(self).beyond(old(self)),
                Err(e) => parse_binary_operation(old(self).toks(), old(self).state()) == Err::<
                    (IRCompKindView, AssemblerState),
                    ErrorView,
                >(e@),
            },
    {
        let table = binary_operator_list();
        let words = operator_words(&table);
        let i = match self.choose_keyword(&words) {
            Err(e) => {
                return Err(e);
            },
            Ok(i) => i,
        };
        let left_operand = match self.parse_ir_value() {
            Err(e) => {
                return Err(e);
            },
            Ok(value) => value,
        };
        let right_operand = match self.parse_ir_value() {
            Err(e) => {
                return Err(e);
            },
            Ok(value) => value,
        };
        Ok(
            IRCompKind::BinaryOperation(
                IRCompBinaryOperation { kind: table[i].1, left_operand, right_operand },
            ),
        )
    }

    fn parse_unary_operation(&mut self) -> (r: Result<IRCompKind, IRAssemblerError>)
        requires
            old(self).wf(),
        ensures
            final(self).wf(),
            final(self).follows(old(self)),
            final(self).toks() == old(self).toks(),
            match r {
                Ok(kind) => parse_unary_operation(old(self).toks(), old(self).state()) == Ok::<
                    (IRCompKindView, AssemblerState),
                    ErrorView,
                >((kind@, final(self).state())) && final(self).beyond(old(self)),
                Err(e) => parse_unary_operation(old(self).toks(), old(self).state()) == Err::<
                    (IRCompKindView, AssemblerState),
                    ErrorView,
                >(e@),
            },
    {
        let table = unary_operator_list();
        let words = operator_words(&table);
        let i = match self.choose_keyword(&words) {
            Err(e) => {
                return Err(e);
            },
            Ok(i) => i,
        };
        match self.parse_ir_value() {
            Err(e) => Err(e),
            Ok(operand) => Ok(
                IRCompKind::UnaryOperation(IRCompUnaryOperation { kind: table[i].1, operand }),
            ),
        }
    }

    fn parse_call(&mut self) -> (r: Result<IRCompKind, IRAssemblerError>)
        requires
            old(self).wf(),
        ensures
            final(self).wf(),
            final(self).follows(old(self)),
            final(self).toks() == old(self).toks(),
            match r {
                Ok(kind) => parse_call(old(self).toks(), old(self).state()) == Ok::<
                    (IRCompKindView, AssemblerState),
                    ErrorView,
                >((kind@, final(self).state())),
                Err(e) => parse_call(old(self).toks(), old(self).state()) == Err::<
                    (IRCompKindView, AssemblerState),
                    ErrorView,
                >(e@),
            },
    {
        let name = match self.parse_symbol() {
            Err(e) => {
                return Err(e);
            },
            Ok(name) => name,
        };
        let count = match self.parse_integer_u64() {
            Err(e) => {
                return Err(e);
            },
            Ok(count) => count,
        };
        match self.parse_ir_values(count) {
            Err(e) => Err(e),
            Ok(args) => Ok(IRCompKind::FunctionCall(IRCompFunctionCall { name, args })),
        }
    }

    fn parse_constant(&mut self) -> (r: Result<IRCompKind, IRAssemblerError>)
        requires
            old(self).wf(),
        ensures
            final(self).wf(),
            final(self).follows(old(self)),
            final(self).toks() == old(self).toks(),
            match r {
                Ok(kind) => parse_constant(old(self).toks(), old(self).state()) == Ok::<
                    (IRCompKindView, AssemblerState),
                    ErrorView,
                >((kind@, final(self).state())),
                Err(e) => parse_constant(old(self).toks(), old(self).state()) == Err::<
                    (IRCompKindView, AssemblerState),
                    ErrorView,
                >(e@),
            },
    {
        let count = match self.parse_integer_u64() {
            Err(e) => {
                return Err(e);
            },
            Ok(count) => count,
        };
        match self.parse_bytes(count) {
            Err(e) => Err(e),
            Ok(bytes) => Ok(IRCompKind::Constant(IRCompConstant { bytes })),
        }
    }

    fn parse_store(&mut self, with_offset: bool) -> (r: Result<IRCompKind, IRAssemblerError>)
        requires
            old(self).wf(),
        ensures
            final(self).wf(),
            final(self).follows(old(self)),
            final(self).toks() == old(self).toks(),
            match r {
                Ok(kind) => parse_store(old(self).toks(), old(self).state(), with_offset) == Ok::<
                    (IRCompKindView, AssemblerState),
                    ErrorView,
                >((kind@, final(self).state())),
                Err(e) => parse_store(old(self).toks(), old(self).state(), with_offset) == Err::<
                    (IRCompKindView, AssemblerState),
                    ErrorView,
                >(e@),
            },
    {
        let ir_type = match self.parse_ir_type() {
            Err(e) => {
                return Err(e);
            },
            Ok(ir_type) => ir_type,
        };
        let location = match self.parse_ir_value() {
            Err(e) => {
                return Err(e);
            },
            Ok(value) => value,
        };
        let value = match self.parse_ir_value() {
            Err(e) => {
                return Err(e);
            },
            Ok(value) => value,
        };
        if with_offset {
            match self.parse_integer_u64() {
                Err(e) => Err(e),
                Ok(offset) => Ok(IRCompKind::OffsetStore(ir_type, location, value, offset)),
            }
        } else {
            Ok(IRCompKind::Store(ir_type, location, value))
        }
    }

    fn parse_load(&mut self, with_offset: bool) -> (r: Result<IRCompKind, IRAssemblerError>)
        requires
            old(self).wf(),
        ensures
            final(self).wf(),
            final(self).follows(old(self)),
            final(self).toks() == old(self).toks(),
            match r {
                Ok(kind) => parse_load(old(self).toks(), old(self).state(), with_offset) == Ok::<
                    (IRCompKindView, AssemblerState),
                    ErrorView,
                >((kind@, final(self).state())),
                Err(e) => parse_load(old(self).toks(), old(self).state(), with_offset) == Err::<
                    (IRCompKindView, AssemblerState),
                    ErrorView,
                >(e@),
            },
    {
        let ir_type = match self.parse_ir_type() {
            Err(e) => {
                return Err(e);
            },
            Ok(ir_type) => ir_type,
        };
        let location = match self.parse_ir_value() {
            Err(e) => {
                return Err(e);
            },
            Ok(value) => value,
        };
        if with_offset {
            match self.parse_integer_u64() {
                Err(e) => Err(e),
                Ok(offset) => Ok(IRCompKind::OffsetLoad(ir_type, location, offset)),
            }
        } else {
            Ok(IRCompKind::Load(ir_type, location))
        }
    }

    fn parse_if(&mut self) -> (r: Result<IRCompKind, IRAssemblerError>)
        requires
            old(self).wf(),
        ensures
            final(self).wf(),
            final(self).follows(old(self)),
            final(self).toks() == old(self).toks(),
            match r {
                Ok(kind) => parse_if(old(self).toks(), old(self).state()) == Ok::<
                    (IRCompKindView, AssemblerState),
                    ErrorView,
                >((kind@, final(self).state())),
                Err(e) => parse_if(old(self).toks(), old(self).state()) == Err::<
                    (IRCompKindView, AssemblerState),
                    ErrorView,
                >(e@),
            },
    {
        let value = match self.parse_ir_value() {
            Err(e) => {
                return Err(e);
            },
            Ok(value) => value,
        };
        match self.parse_label_ref() {
            Err(e) => Err(e),
            Ok(label) => Ok(IRCompKind::If(value, label)),
        }
    }

    /// A computation.
    fn parse_ir_comp(&mut self) -> (r: Result<IRCompKind, IRAssemblerError>)
        requires
            old(self).wf(),
        ensures
            final(self).wf(),
            final(self).follows(old(self)),
            final(self).toks() == old(self).toks(),
            match r {
                Ok(kind) => parse_ir_comp(old(self).toks(), old(self).state()) == Ok::<
                    (IRCompKindView, AssemblerState),
                    ErrorView,
                >((kind@, final(self).state())) && final(self).beyond(old(self)),
                Err(e) => parse_ir_comp(old(self).toks(), old(self).state()) == Err::<
                    (IRCompKindView, AssemblerState),
                    ErrorView,
                >(e@),
            },
    {
        proof {
            reveal(parse_ir_comp);
        }
        let keywords = comp_keyword_list();
        let i = match self.choose_keyword(&keywords) {
            Err(e) => {
                return Err(e);
            },
            Ok(i) => i,
        };
        if i == 0 {
            self.parse_call()
        } else if i == 1 {
            self.parse_binary_operation()
        } else if i == 2 {
            self.parse_unary_operation()
        } else if i == 3 {
            self.parse_constant()
        } else if i == 4 {
            match self.parse_ir_type() {
                Err(e) => Err(e),
                Ok(ir_type) => Ok(IRCompKind::Alloc(ir_type)),
            }
        } else if i == 5 {
            self.parse_store(false)
        } else if i == 6 {
            self.parse_load(false)
        } else if i == 7 {
            self.parse_store(true)
        } else if i == 8 {
            self.parse_load(true)
        } else if i == 9 {
            match self.parse_ir_value() {
                Err(e) => Err(e),
                Ok(value) => Ok(IRCompKind::Return(value)),
            }
        } else if i == 10 {
            self.parse_if()
        } else {
            match self.parse_label_ref() {
                Err(e) => Err(e),
                Ok(label) => Ok(IRCompKind::Jmp(label)),
            }
        }
    }

    /// The name that a parameter or a computation gets, if one is given.
    fn parse_binding(&mut self) -> (r: Result<Option<Symbol>, IRAssemblerError>)
        requires
            old(self).wf(),
        ensures
            final(self).wf(),
            final(self).follows(old(self)),
            final(self).toks() == old(self).toks(),
            match r {
                Ok(name) => parse_binding(old(self).toks(), old(self).state()) == Ok::<
                    (Option<Symbol>, AssemblerState),
                    ErrorView,
                >((name, final(self).state())),
                Err(e) => parse_binding(old(self).toks(), old(self).state()) == Err::<
                    (Option<Symbol>, AssemblerState),
                    ErrorView,
                >(e@),
            },
    {
        if !self.check_kind(IRAssemblyTokenKind::Percent) {
            return Ok(None);
        }
        self.advance_token();
        let name = match self.parse_symbol() {
            Err(e) => {
                return Err(e);
            },
            Ok(name) => name,
        };
        match self.expect_kind(IRAssemblyTokenKind::Colon) {
            Err(e) => {
                return Err(e);
            },
            Ok(_) => {},
        }
        match self.expect_keyword("=") {
            Err(e) => Err(e),
            Ok(()) => Ok(Some(name)),
        }
    }

    /// The parameters of a function, up to the arrow.
    fn parse_params(&mut self) -> (r: Result<Vec<(Option<Symbol>, IRType)>, IRAssemblerError>)
        requires
            old(self).wf(),
        ensures
            final(self).wf(),
            final(self).follows(old(self)),
            final(self).toks() == old(self).toks(),
            match r {
                Ok(params) => parse_params(old(self).toks(), old(self).state(), Seq::empty())
                    == Ok::<(Seq<(Option<Symbol>, IRType)>, AssemblerState), ErrorView>(
                    (params@, final(self).state()),
                ) && final(self).beyond(old(self)),
                Err(e) => parse_params(old(self).toks(), old(self).state(), Seq::empty()) == Err::<
                    (Seq<(Option<Symbol>, IRType)>, AssemblerState),
                    ErrorView,
                >(e@),
            },
    {
        let mut params: Vec<(Option<Symbol>, IRType)> = Vec::new();
        loop
            invariant
                self.wf(),
                self.follows(old(self)),
                self.toks() == old(self).toks(),
                parse_params(old(self).toks(), old(self).state(), Seq::empty()) == parse_params(
                    self.toks(),
                    self.state(),
                    params@,
                ),
            decreases self.tokens.len() - self.pos,
        {
            if self.check_kind(IRAssemblyTokenKind::Arrow) {
                self.advance_token();
                return Ok(params);
            }
            let name = match self.parse_binding() {
                Err(e) => {
                    return Err(e);
                },
                Ok(name) => name,
            };
            let ir_type = match self.parse_ir_type() {
                Err(e) => {
                    return Err(e);
                },
                Ok(ir_type) => ir_type,
            };
            params.push((name, ir_type));
        }
    }

    /// The computations and labels of a function, up to `endfn`.
    fn parse_body(&mut self) -> (r: Result<(Vec<IRComp>, Vec<(Symbol, u64)>), IRAssemblerError>)
        requires
            old(self).wf(),
        ensures
            final(self).wf(),
            final(self).follows(old(self)),
            final(self).toks() == old(self).toks(),
            match r {
                Ok((comps, label_defs)) => parse_body(
                    old(self).toks(),
                    old(self).state(),
                    Seq::empty(),
                    Seq::empty(),
                ) == Ok::<
                    ((Seq<IRCompView>, Seq<(Symbol, u64)>), AssemblerState),
                    ErrorView,
                >(((comps_view(comps@), label_defs@), final(self).state()))
                    && final(self).beyond(old(self)),
                Err(e) => parse_body(
                    old(self).toks(),
                    old(self).state(),
                    Seq::empty(),
                    Seq::empty(),
                ) == Err::<((Seq<IRCompView>, Seq<(Symbol, u64)>), AssemblerState), ErrorView>(
                    e@,
                ),
            },
    {
        let mut comps: Vec<IRComp> = Vec::new();
        let mut label_defs: Vec<(Symbol, u64)> = Vec::new();
        proof {
            assert(comps_view(comps@) =~= Seq::<IRCompView>::empty());
        }
        loop
            invariant
                self.wf(),
                self.follows(old(self)),
                self.toks() == old(self).toks(),
                comps.len() <= self.pos,
                parse_body(old(self).toks(), old(self).state(), Seq::empty(), Seq::empty())
                    == parse_body(
                    self.toks(),
                    self.state(),
                    comps_view(comps@),
                    label_defs@,
                ),
            decreases self.tokens.len() - self.pos,
        {
            if self.check_keyword("endfn") {
                self.advance_token();
                return Ok((comps, label_defs));
            }
            if self.check_kind(IRAssemblyTokenKind::Colon) {
                self.advance_token();
                let label = match self.parse_symbol() {
                    Err(e) => {
                        return Err(e);
                    },
                    Ok(label) => label,
                };
                label_defs.push((label, comps.len() as u64));
            } else {
                let id = match self.parse_binding() {
                    Err(e) => {
                        return Err(e);
                    },
                    Ok(id) => id,
                };
                let kind = match self.parse_ir_comp() {
                    Err(e) => {
                        return Err(e);
                    },
                    Ok(kind) => kind,
                };
                let comp = IRComp { kind, id };
                proof {
                    assert(comps_view(comps@.push(comp)) =~= comps_view(comps@).push(comp@));
                }
                comps.push(comp);
            }
        }
    }

    /// A function, behind its `fn`.
    fn parse_function(&mut self) -> (r: Result<IRItemFunctionDef, IRAssemblerError>)
        requires
            old(self).wf(),
        ensures
            final(self).wf(),
            final(self).follows(old(self)),
            final(self).toks() == old(self).toks(),
            match r {
                Ok(function) => parse_function(old(self).toks(), old(self).state()) == Ok::<
                    (IRFunctionView, AssemblerState),
                    ErrorView,
                >((function@, final(self).state())) && final(self).beyond(old(self)),
                Err(e) => parse_function(old(self).toks(), old(self).state()) == Err::<
                    (IRFunctionView, AssemblerState),
                    ErrorView,
                >(e@),
            },
    {
        proof {
            reveal(parse_function);
        }
        let name = match self.parse_symbol() {
            Err(e) => {
                return Err(e);
            },
            Ok(name) => name,
        };
        match self.expect_kind(IRAssemblyTokenKind::Colon) {
            Err(e) => {
                return Err(e);
            },
            Ok(_) => {},
        }
        let params = match self.parse_params() {
            Err(e) => {
                return Err(e);
            },
            Ok(params) => params,
        };
        let return_type = match self.parse_ir_type() {
            Err(e) => {
                return Err(e);
            },
            Ok(ir_type) => ir_type,
        };
        match self.parse_body() {
            Err(e) => Err(e),
            Ok((comps, label_defs)) => Ok(
                IRItemFunctionDef { name, return_type, params, comps, label_defs },
            ),
        }
    }

    /// The functions of a module, up to the end of the text.
    fn parse_ir_module(&mut self) -> (r: Result<IRModule, IRAssemblerError>)
        requires
            old(self).wf(),
        ensures
            final(self).wf(),
            final(self).follows(old(self)),
            final(self).toks() == old(self).toks(),
            match r {
                Ok(module) => parse_ir_module(old(self).toks(), old(self).state(), Seq::empty())
                    == Ok::<(Seq<IRFunctionView>, AssemblerState), ErrorView>(
                    (module@, final(self).state()),
                ),
                Err(e) => parse_ir_module(old(self).toks(), old(self).state(), Seq::empty())
                    == Err::<(Seq<IRFunctionView>, AssemblerState), ErrorView>(e@),
            },
    {
        let mut items: Vec<IRItem> = Vec::new();
        proof {
            assert(items_view(items@) =~= Seq::<IRFunctionView>::empty());
        }
        loop
            invariant
                self.wf(),
                self.follows(old(self)),
                self.toks() == old(self).toks(),
                parse_ir_module(old(self).toks(), old(self).state(), Seq::empty())
                    == parse_ir_module(self.toks(), self.state(), items_view(items@)),
            decreases self.tokens.len() - self.pos,
        {
            if self.check_keyword("fn") {
                self.advance_token();
                let function = match self.parse_function() {
                    Err(e) => {
                        return Err(e);
                    },
                    Ok(function) => function,
                };
                let item = IRItem { kind: IRItemKind::FunctionDef(function) };
                proof {
                    assert(items_view(items@.push(item)) =~= items_view(items@).push(item@));
                }
                items.push(item);
                continue ;
            }
            if self.check_kind(IRAssemblyTokenKind::Eof) {
                return Ok(IRModule { items });
            }
            return Err(self.error_unexpected());
        }
    }
}

/// What assembling the text `s` gives with an interner that holds `names`:
/// the functions of the module with the names and the count of the
/// interner afterwards, or the first error.
pub open spec fn assemble(s: Seq<char>, names: Map<Seq<char>, u64>, count: nat) -> Parsed<
    Seq<IRFunctionView>,
> {
    parse_ir_module(lex(s, 0), initial_state(names, count), Seq::empty())
}

/// Reads a module from its text. The names in the text are interned in
/// `interner`, which keeps every symbol that it had.
pub fn assemble_ir_module(src: &str, interner: &mut StringInterner) -> (r: Result<
    IRModule,
    IRAssemblerError,
>)
    requires
        old(interner).wf(),
    ensures
        final(interner).wf(),
        names_extend(old(interner).names(), final(interner).names()),
        match r {
            Ok(module) => {
                &&& assemble(src@, old(interner).names(), old(interner).count()) matches Ok(
                    (functions, state),
                )
                &&& functions == module@
                &&& state.names == final(interner).names()
                &&& state.count == final(interner).count()
            },
            Err(e) => assemble(src@, old(interner).names(), old(interner).count()) == Err::<
                (Seq<IRFunctionView>, AssemblerState),
                ErrorView,
            >(e@),
        },
{
    let mut taken = StringInterner::new();
    std::mem::swap(interner, &mut taken);
    let mut assembler = IRAssembler::new(chars_of_str(src), taken);
    let r = assembler.parse_ir_module();
    *interner = assembler.interner;
    r
}

} // verus!
