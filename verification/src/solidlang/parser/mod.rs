//! The parser of the Solid language.

use crate::globals::{StringInterner, Symbol};
use crate::solidlang::ast::{
    ASTExpression, ASTExpressionKind, ASTFunctionDef, ASTItem, ASTItemKind, ASTModule,
    ASTNameAndType, ASTOperator, ASTStatement, ASTStatementBlock, ASTStatementKind, ASTStructDef,
    ASTTemplate, ASTType, ASTTypeKind,
};
use crate::solidlang::lexer::{lex, stream_wf, tokens_view, Token, TokenKind, TokenView};
use crate::solidlang::parser::grammar::{
    advance, close, error_unexpected, expect, expect_ident, advance_symbol, call_args,
    initial_state, item_kinds, operator_kinds, operator_of, parse, parse_application_and_access,
    parse_binary_operation_with_precedence, parse_expression, parse_expressions_rest, parse_for,
    parse_if, parse_item, parse_items, parse_module, parse_name_and_type, parse_operations,
    parse_pairs, parse_pairs_rest, parse_postfix, parse_primary_expression, parse_statement,
    parse_statement_block, parse_statements, parse_type, parse_type_args_rest, parse_types_rest,
    parse_while, parse_unary_expression, passed, peek, postfix_kinds, primary_kinds, requires_semi,
    statement_kinds, symbols_rest, tried, unary_kinds, ErrorKindView, ErrorView, ParserState,
};
use crate::solidlang::span::Span;
use crate::solidlang::tree::{
    expression_trees, item_trees, lemma_block_tree, lemma_call_tree, lemma_template_tree,
    lemma_type_tree, name_and_type_trees, statement_trees, type_trees, BlockTree, ExpressionTree,
    ItemTree, ModuleTree, NameAndTypeTree, StatementKindTree, StatementTree, TypeTree,
};
use crate::text::{chars_of_str, parse_decimal, string_of_range};
use vstd::prelude::*;

pub mod grammar;

verus! {

#[derive(Debug)]
pub enum ParserErrorKind {
    /// The token `got` stands where one of the kinds `expected` had to.
    UnexpectedToken { expected: Vec<TokenKind>, got: TokenKind },
    /// No index is left for another symbol.
    TooManySymbols,
}

/// An error of the parser, with the place of the token at which it arose.
#[derive(Debug)]
pub struct ParserError {
    pub kind: ParserErrorKind,
    pub span: Span,
}

impl View for ParserError {
    type V = ErrorView;

    open spec fn view(&self) -> ErrorView {
        ErrorView {
            kind: match self.kind {
                ParserErrorKind::UnexpectedToken { expected, got } => {
                    ErrorKindView::UnexpectedToken { expected: expected@, got }
                },
                ParserErrorKind::TooManySymbols => ErrorKindView::TooManySymbols,
            },
            span: self.span,
        }
    }
}

/// A parser over the tokens of a text.
pub struct Parser {
    tokens: Vec<Token>,
    chars: Vec<char>,
    pos: usize,
    expected_tokens: Vec<TokenKind>,
}

fn copy_kinds(kinds: &Vec<TokenKind>) -> (r: Vec<TokenKind>)
    ensures
        r@ == kinds@,
{
    let mut r: Vec<TokenKind> = Vec::new();
    let mut i: usize = 0;
    while i < kinds.len()
        invariant
            i <= kinds.len(),
            r@ == kinds@.take(i as int),
        decreases kinds.len() - i,
    {
        r.push(kinds[i]);
        i = i + 1;
        assert(kinds@.take(i as int) =~= kinds@.take(i - 1).push(kinds@[i - 1]));
    }
    assert(kinds@.take(kinds.len() as int) =~= kinds@);
    r
}

impl Parser {
    /// The tokens with their texts.
    pub closed spec fn toks(&self) -> Seq<TokenView> {
        tokens_view(self.tokens@, self.chars@)
    }

    /// Where the parser stands, with the strings that `interner` holds.
    pub closed spec fn state(&self, interner: &StringInterner) -> ParserState {
        ParserState {
            pos: self.pos as int,
            expected: self.expected_tokens@,
            names: interner.names(),
            count: interner.count(),
        }
    }

    /// The tokens are those of a text, and the parser stands at one of
    /// them.
    pub closed spec fn wf(&self) -> bool {
        stream_wf(self.tokens@, self.chars@) && self.pos < self.tokens.len()
    }

    /// The parser reads the same tokens as `old`, and has not gone back.
    pub closed spec fn follows(&self, old: &Self) -> bool {
        self.tokens == old.tokens && self.chars == old.chars && self.pos >= old.pos
    }

    /// The number of tokens that the parser has not passed.
    pub closed spec fn remaining(&self) -> nat {
        (self.tokens.len() - self.pos) as nat
    }

    /// The parser has passed a token since `old`.
    pub closed spec fn beyond(&self, old: &Self) -> bool {
        self.pos > old.pos
    }

    /// A parser at the first of the tokens of `src`.
    pub fn new(tokens: Vec<Token>, src: &str) -> (r: Self)
        requires
            stream_wf(tokens@, src@),
        ensures
            r.wf(),
            r.toks() == tokens_view(tokens@, src@),
            forall|interner: &StringInterner|
                r.state(interner) == initial_state(interner.names(), interner.count()),
    {
        Parser { tokens, chars: chars_of_str(src), pos: 0, expected_tokens: Vec::new() }
    }

    fn peek(&self) -> (token: Token)
        requires
            self.wf(),
        ensures
            token == self.tokens@[self.pos as int],
            token.within(self.chars@),
            forall|interner: &StringInterner|
                token.view_in(self.chars@) == peek(self.toks(), #[trigger] self.state(interner)),
            token.kind == TokenKind::EOF <==> self.pos == self.tokens.len() - 1,
    {
        self.tokens[self.pos]
    }

    /// Whether the next token is of the given kind, which is recorded as
    /// tried.
    fn check(&mut self, kind: TokenKind) -> (r: bool)
        requires
            old(self).wf(),
        ensures
            final(self).wf(),
            final(self).follows(old(self)),
            final(self).pos == old(self).pos,
            final(self).expected_tokens@ == old(self).expected_tokens@.push(kind),
            forall|interner: &StringInterner| #[trigger]
                final(self).state(interner) == tried(old(self).state(interner), seq![kind]),
            r == (old(self).tokens@[old(self).pos as int].kind == kind),
            forall|interner: &StringInterner|
                r == (peek(old(self).toks(), #[trigger] old(self).state(interner)).kind == kind),
    {
        self.expected_tokens.push(kind);
        proof {
            assert(self.expected_tokens@ =~= old(self).expected_tokens@ + seq![kind]);
        }
        self.tokens[self.pos].kind == kind
    }

    /// Passes the next token, which is not the end of the text.
    fn advance(&mut self) -> (token: Token)
        requires
            old(self).wf(),
            old(self).tokens@[old(self).pos as int].kind != TokenKind::EOF,
        ensures
            final(self).wf(),
            final(self).follows(old(self)),
            final(self).beyond(old(self)),
            final(self).pos == old(self).pos + 1,
            token == old(self).tokens@[old(self).pos as int],
            token.within(old(self).chars@),
            forall|interner: &StringInterner| #[trigger]
                final(self).state(interner) == advance(old(self).state(interner)),
    {
        let token = self.tokens[self.pos];
        self.expected_tokens = Vec::new();
        self.pos = self.pos + 1;
        token
    }

    fn error_unexpected(&self, interner: &StringInterner) -> (e: ParserError)
        requires
            self.wf(),
        ensures
            e@ == error_unexpected(self.toks(), self.state(interner)),
    {
        let token = self.peek();
        ParserError {
            kind: ParserErrorKind::UnexpectedToken {
                expected: copy_kinds(&self.expected_tokens),
                got: token.kind,
            },
            span: Span { start: token.start, len: token.len },
        }
    }

    /// The place of what was read from the offset `start` on.
    fn close_span(&self, start: usize, interner: &StringInterner) -> (span: Span)
        requires
            self.wf(),
        ensures
            span == close(self.toks(), start as nat, self.state(interner)),
    {
        let end = if self.pos > 0 {
            let last = self.tokens[self.pos - 1];
            match last.start.checked_add(last.len) {
                Some(end) => end,
                None => usize::MAX,
            }
        } else {
            0
        };
        Span {
            start,
            len: if end >= start {
                end - start
            } else {
                0
            },
        }
    }

    fn expect(&mut self, kind: TokenKind, interner: &StringInterner) -> (r: Result<
        Token,
        ParserError,
    >)
        requires
            old(self).wf(),
            kind != TokenKind::EOF,
        ensures
            final(self).wf(),
            final(self).follows(old(self)),
            match r {
                Ok(token) => expect(old(self).toks(), old(self).state(interner), kind) == Ok::<
                    (TokenView, ParserState),
                    ErrorView,
                >((token.view_in(old(self).chars@), final(self).state(interner))) && final(self).beyond(
                    old(self),
                ),
                Err(e) => expect(old(self).toks(), old(self).state(interner), kind) == Err::<
                    (TokenView, ParserState),
                    ErrorView,
                >(e@),
            },
    {
        if self.check(kind) {
            Ok(self.advance())
        } else {
            Err(self.error_unexpected(interner))
        }
    }

    /// Passes the next token, which is not the end of the text, and gives
    /// the symbol of its text.
    #[verifier::rlimit(50)]
    fn advance_symbol(&mut self, interner: &mut StringInterner) -> (r: Result<Symbol, ParserError>)
        requires
            old(self).wf(),
            old(interner).wf(),
            old(self).tokens@[old(self).pos as int].kind != TokenKind::EOF,
        ensures
            final(self).wf(),
            final(interner).wf(),
            final(self).follows(old(self)),
            match r {
                Ok(symbol) => advance_symbol(old(self).toks(), old(self).state(old(interner)))
                    == Ok::<(Symbol, ParserState), ErrorView>(
                    (symbol, final(self).state(final(interner))),
                ) && final(self).beyond(old(self)),
                Err(e) => advance_symbol(old(self).toks(), old(self).state(old(interner)))
                    == Err::<(Symbol, ParserState), ErrorView>(e@),
            },
    {
        let token = self.advance();
        let text = if token.kind == TokenKind::Error {
            String::new()
        } else {
            string_of_range(&self.chars, token.first, token.end)
        };
        match interner.try_intern(text.as_str()) {
            Some(symbol) => Ok(symbol),
            None => Err(
                ParserError {
                    kind: ParserErrorKind::TooManySymbols,
                    span: Span { start: token.start, len: token.len },
                },
            ),
        }
    }

    fn expect_ident(&mut self, interner: &mut StringInterner) -> (r: Result<Symbol, ParserError>)
        requires
            old(self).wf(),
            old(interner).wf(),
        ensures
            final(self).wf(),
            final(interner).wf(),
            final(self).follows(old(self)),
            match r {
                Ok(symbol) => expect_ident(old(self).toks(), old(self).state(old(interner)))
                    == Ok::<(Symbol, ParserState), ErrorView>(
                    (symbol, final(self).state(final(interner))),
                ) && final(self).beyond(old(self)),
                Err(e) => expect_ident(old(self).toks(), old(self).state(old(interner)))
                    == Err::<(Symbol, ParserState), ErrorView>(e@),
            },
    {
        if self.check(TokenKind::Ident) {
            self.advance_symbol(interner)
        } else {
            Err(self.error_unexpected(interner))
        }
    }
}

impl Parser {
    /// The identifiers behind `symbols`, each behind a token of the kind
    /// `separator`, which is a comma or two colons.
    #[verifier::loop_isolation(false)]
    #[verifier::rlimit(50)]
    fn parse_symbols_rest(
        &mut self,
        separator: TokenKind,
        symbols: Vec<Symbol>,
        interner: &mut StringInterner,
    ) -> (r: Result<Vec<Symbol>, ParserError>)
        requires
            old(self).wf(),
            old(interner).wf(),
            separator == TokenKind::Comma || separator == TokenKind::ColonColon,
        ensures
            final(self).wf(),
            final(interner).wf(),
            final(self).follows(old(self)),
            match r {
                Ok(all) => symbols_rest(
                    old(self).toks(),
                    old(self).state(old(interner)),
                    separator,
                    symbols@,
                ) == Ok::<(Seq<Symbol>, ParserState), ErrorView>(
                    (all@, final(self).state(final(interner))),
                ),
                Err(e) => symbols_rest(
                    old(self).toks(),
                    old(self).state(old(interner)),
                    separator,
                    symbols@,
                ) == Err::<(Seq<Symbol>, ParserState), ErrorView>(e@),
            },
    {
        let mut symbols = symbols;
        let ghost tokens = self.toks();
        let ghost wanted = symbols_rest(tokens, self.state(interner), separator, symbols@);
        loop
            invariant
                self.wf(),
                interner.wf(),
                self.follows(old(self)),
                tokens == self.toks(),
                separator == TokenKind::Comma || separator == TokenKind::ColonColon,
                wanted == symbols_rest(tokens, self.state(interner), separator, symbols@),
            decreases self.tokens.len() - self.pos,
        {
            if !self.check(separator) {
                return Ok(symbols);
            }
            self.advance();
            let symbol = match self.expect_ident(interner) {
                Err(e) => {
                    return Err(e);
                },
                Ok(symbol) => symbol,
            };
            symbols.push(symbol);
        }
    }

    /// A type.
    #[verifier::rlimit(50)]
    pub fn parse_type(&mut self, interner: &mut StringInterner) -> (r: Result<ASTType, ParserError>)
        requires
            old(self).wf(),
            old(interner).wf(),
        ensures
            final(self).wf(),
            final(interner).wf(),
            final(self).follows(old(self)),
            match r {
                Ok(ast_type) => parse_type(old(self).toks(), old(self).state(old(interner)))
                    == Ok::<(TypeTree, ParserState), ErrorView>(
                    (ast_type.tree(), final(self).state(final(interner))),
                ) && final(self).beyond(old(self)),
                Err(e) => parse_type(old(self).toks(), old(self).state(old(interner))) == Err::<
                    (TypeTree, ParserState),
                    ErrorView,
                >(e@),
            },
        decreases old(self).remaining(), 1nat,
    {
        let ghost st = self.state(interner);
        let start = self.peek().start;
        if self.check(TokenKind::Ident) {
            let first = match self.advance_symbol(interner) {
                Err(e) => {
                    return Err(e);
                },
                Ok(first) => first,
            };
            let mut firsts: Vec<Symbol> = Vec::new();
            firsts.push(first);
            assert(firsts@ =~= seq![first]);
            let symbols = match self.parse_symbols_rest(TokenKind::ColonColon, firsts, interner) {
                Err(e) => {
                    return Err(e);
                },
                Ok(symbols) => symbols,
            };
            let mut generic_args: Vec<ASTType> = Vec::new();
            if self.check(TokenKind::LABracket) {
                self.advance();
                let first_arg = match self.parse_type(interner) {
                    Err(e) => {
                        return Err(e);
                    },
                    Ok(first_arg) => first_arg,
                };
                generic_args.push(first_arg);
                assert(type_trees(generic_args@) =~= seq![first_arg.tree()]);
                generic_args = match self.parse_type_args_rest(generic_args, interner) {
                    Err(e) => {
                        return Err(e);
                    },
                    Ok(generic_args) => generic_args,
                };
            } else {
                assert(type_trees(generic_args@) =~= Seq::<TypeTree>::empty());
            }
            let ast_type = ASTType {
                kind: ASTTypeKind::Path { symbols, generic_args },
                span: self.close_span(start, interner),
            };
            proof {
                lemma_type_tree(&ast_type);
            }
            return Ok(ast_type);
        }
        if self.check(TokenKind::Mul) {
            assert(self.expected_tokens@ =~= st.expected + seq![TokenKind::Ident, TokenKind::Mul]);
            self.advance();
            let inner = match self.parse_type(interner) {
                Err(e) => {
                    return Err(e);
                },
                Ok(inner) => inner,
            };
            return Ok(
                ASTType {
                    kind: ASTTypeKind::PointerTo(Box::new(inner)),
                    span: self.close_span(start, interner),
                },
            );
        }
        assert(self.expected_tokens@ =~= st.expected + seq![TokenKind::Ident, TokenKind::Mul]);
        Err(self.error_unexpected(interner))
    }

    /// The arguments of a type behind `args`, each behind a comma, up to
    /// the closing bracket.
    #[verifier::loop_isolation(false)]
    #[verifier::rlimit(50)]
    fn parse_type_args_rest(&mut self, args: Vec<ASTType>, interner: &mut StringInterner) -> (r:
        Result<Vec<ASTType>, ParserError>)
        requires
            old(self).wf(),
            old(interner).wf(),
        ensures
            final(self).wf(),
            final(interner).wf(),
            final(self).follows(old(self)),
            match r {
                Ok(all) => parse_type_args_rest(
                    old(self).toks(),
                    old(self).state(old(interner)),
                    type_trees(args@),
                ) == Ok::<(Seq<TypeTree>, ParserState), ErrorView>(
                    (type_trees(all@), final(self).state(final(interner))),
                ) && final(self).beyond(old(self)),
                Err(e) => parse_type_args_rest(
                    old(self).toks(),
                    old(self).state(old(interner)),
                    type_trees(args@),
                ) == Err::<(Seq<TypeTree>, ParserState), ErrorView>(e@),
            },
        decreases old(self).remaining(), 0nat,
    {
        let mut args = args;
        let ghost tokens = self.toks();
        let ghost wanted = parse_type_args_rest(tokens, self.state(interner), type_trees(args@));
        loop
            invariant
                self.wf(),
                interner.wf(),
                self.follows(old(self)),
                tokens == self.toks(),
                wanted == parse_type_args_rest(tokens, self.state(interner), type_trees(args@)),
            decreases self.tokens.len() - self.pos,
        {
            if self.check(TokenKind::RABracket) {
                self.advance();
                return Ok(args);
            }
            match self.expect(TokenKind::Comma, interner) {
                Err(e) => {
                    return Err(e);
                },
                Ok(_) => {},
            }
            let arg = match self.parse_type(interner) {
                Err(e) => {
                    return Err(e);
                },
                Ok(arg) => arg,
            };
            proof {
                assert(type_trees(args@.push(arg)) =~= type_trees(args@).push(arg.tree()));
            }
            args.push(arg);
        }
    }

    /// The types behind `types`, each behind a comma.
    #[verifier::loop_isolation(false)]
    #[verifier::rlimit(50)]
    fn parse_types_rest(&mut self, types: Vec<ASTType>, interner: &mut StringInterner) -> (r:
        Result<Vec<ASTType>, ParserError>)
        requires
            old(self).wf(),
            old(interner).wf(),
        ensures
            final(self).wf(),
            final(interner).wf(),
            final(self).follows(old(self)),
            match r {
                Ok(all) => parse_types_rest(
                    old(self).toks(),
                    old(self).state(old(interner)),
                    type_trees(types@),
                ) == Ok::<(Seq<TypeTree>, ParserState), ErrorView>(
                    (type_trees(all@), final(self).state(final(interner))),
                ),
                Err(e) => parse_types_rest(
                    old(self).toks(),
                    old(self).state(old(interner)),
                    type_trees(types@),
                ) == Err::<(Seq<TypeTree>, ParserState), ErrorView>(e@),
            },
    {
        let mut types = types;
        let ghost tokens = self.toks();
        let ghost wanted = parse_types_rest(tokens, self.state(interner), type_trees(types@));
        loop
            invariant
                self.wf(),
                interner.wf(),
                self.follows(old(self)),
                tokens == self.toks(),
                wanted == parse_types_rest(tokens, self.state(interner), type_trees(types@)),
            decreases self.tokens.len() - self.pos,
        {
            if !self.check(TokenKind::Comma) {
                return Ok(types);
            }
            self.advance();
            let ast_type = match self.parse_type(interner) {
                Err(e) => {
                    return Err(e);
                },
                Ok(ast_type) => ast_type,
            };
            proof {
                assert(type_trees(types@.push(ast_type)) =~= type_trees(types@).push(
                    ast_type.tree(),
                ));
            }
            types.push(ast_type);
        }
    }

    /// A name with its type.
    #[verifier::rlimit(50)]
    fn parse_name_and_type(&mut self, interner: &mut StringInterner) -> (r: Result<
        ASTNameAndType,
        ParserError,
    >)
        requires
            old(self).wf(),
            old(interner).wf(),
        ensures
            final(self).wf(),
            final(interner).wf(),
            final(self).follows(old(self)),
            match r {
                Ok(pair) => parse_name_and_type(old(self).toks(), old(self).state(old(interner)))
                    == Ok::<(NameAndTypeTree, ParserState), ErrorView>(
                    (pair.tree(), final(self).state(final(interner))),
                ) && final(self).beyond(old(self)),
                Err(e) => parse_name_and_type(old(self).toks(), old(self).state(old(interner)))
                    == Err::<(NameAndTypeTree, ParserState), ErrorView>(e@),
            },
    {
        let start = self.peek().start;
        let name = match self.expect_ident(interner) {
            Err(e) => {
                return Err(e);
            },
            Ok(name) => name,
        };
        match self.expect(TokenKind::Colon, interner) {
            Err(e) => {
                return Err(e);
            },
            Ok(_) => {},
        }
        let ast_type = match self.parse_type(interner) {
            Err(e) => {
                return Err(e);
            },
            Ok(ast_type) => ast_type,
        };
        Ok(ASTNameAndType { name, ast_type, span: self.close_span(start, interner) })
    }

    /// The names with their types behind `pairs`, each behind a comma.
    #[verifier::loop_isolation(false)]
    #[verifier::rlimit(50)]
    fn parse_pairs_rest(&mut self, pairs: Vec<ASTNameAndType>, interner: &mut StringInterner) -> (r:
        Result<Vec<ASTNameAndType>, ParserError>)
        requires
            old(self).wf(),
            old(interner).wf(),
        ensures
            final(self).wf(),
            final(interner).wf(),
            final(self).follows(old(self)),
            match r {
                Ok(all) => parse_pairs_rest(
                    old(self).toks(),
                    old(self).state(old(interner)),
                    name_and_type_trees(pairs@),
                ) == Ok::<(Seq<NameAndTypeTree>, ParserState), ErrorView>(
                    (name_and_type_trees(all@), final(self).state(final(interner))),
                ),
                Err(e) => parse_pairs_rest(
                    old(self).toks(),
                    old(self).state(old(interner)),
                    name_and_type_trees(pairs@),
                ) == Err::<(Seq<NameAndTypeTree>, ParserState), ErrorView>(e@),
            },
    {
        let mut pairs = pairs;
        let ghost tokens = self.toks();
        let ghost wanted = parse_pairs_rest(
            tokens,
            self.state(interner),
            name_and_type_trees(pairs@),
        );
        loop
            invariant
                self.wf(),
                interner.wf(),
                self.follows(old(self)),
                tokens == self.toks(),
                wanted == parse_pairs_rest(
                    tokens,
                    self.state(interner),
                    name_and_type_trees(pairs@),
                ),
            decreases self.tokens.len() - self.pos,
        {
            if !self.check(TokenKind::Comma) {
                return Ok(pairs);
            }
            self.advance();
            let pair = match self.parse_name_and_type(interner) {
                Err(e) => {
                    return Err(e);
                },
                Ok(pair) => pair,
            };
            proof {
                assert(name_and_type_trees(pairs@.push(pair)) =~= name_and_type_trees(
                    pairs@,
                ).push(pair.tree()));
            }
            pairs.push(pair);
        }
    }

    /// Names with their types, separated by commas, up to the token of the
    /// kind `closing`; or that token alone.
    #[verifier::rlimit(50)]
    fn parse_pairs(&mut self, closing: TokenKind, interner: &mut StringInterner) -> (r: Result<
        Vec<ASTNameAndType>,
        ParserError,
    >)
        requires
            old(self).wf(),
            old(interner).wf(),
            closing != TokenKind::EOF,
        ensures
            final(self).wf(),
            final(interner).wf(),
            final(self).follows(old(self)),
            match r {
                Ok(pairs) => parse_pairs(old(self).toks(), old(self).state(old(interner)), closing)
                    == Ok::<(Seq<NameAndTypeTree>, ParserState), ErrorView>(
                    (name_and_type_trees(pairs@), final(self).state(final(interner))),
                ) && final(self).beyond(old(self)),
                Err(e) => parse_pairs(old(self).toks(), old(self).state(old(interner)), closing)
                    == Err::<(Seq<NameAndTypeTree>, ParserState), ErrorView>(e@),
            },
    {
        let mut pairs: Vec<ASTNameAndType> = Vec::new();
        if self.check(closing) {
            self.advance();
            assert(name_and_type_trees(pairs@) =~= Seq::<NameAndTypeTree>::empty());
            return Ok(pairs);
        }
        let first = match self.parse_name_and_type(interner) {
            Err(e) => {
                return Err(e);
            },
            Ok(first) => first,
        };
        pairs.push(first);
        assert(name_and_type_trees(pairs@) =~= seq![first.tree()]);
        let pairs = match self.parse_pairs_rest(pairs, interner) {
            Err(e) => {
                return Err(e);
            },
            Ok(pairs) => pairs,
        };
        match self.expect(closing, interner) {
            Err(e) => Err(e),
            Ok(_) => Ok(pairs),
        }
    }
}

/// The operators that stand between two operands, with the kinds of their
/// tokens and their precedences, in the order in which they are tried.
pub open spec fn operator_entries() -> Seq<(TokenKind, ASTOperator, u8)> {
    seq![
        (TokenKind::Assign, ASTOperator::Assign, 0u8),
        (TokenKind::BitRShift, ASTOperator::BitRShift, 1u8),
        (TokenKind::BitLShift, ASTOperator::BitLShift, 1u8),
        (TokenKind::Equal, ASTOperator::Equal, 2u8),
        (TokenKind::NotEqual, ASTOperator::NotEqual, 2u8),
        (TokenKind::RABracket, ASTOperator::Greater, 2u8),
        (TokenKind::LABracket, ASTOperator::Lesser, 2u8),
        (TokenKind::GreaterEqual, ASTOperator::GreaterEqual, 2u8),
        (TokenKind::LesserEqual, ASTOperator::LesserEqual, 2u8),
        (TokenKind::BoolOr, ASTOperator::BoolOr, 3u8),
        (TokenKind::BoolAnd, ASTOperator::BoolAnd, 4u8),
        (TokenKind::BitOr, ASTOperator::BitOr, 5u8),
        (TokenKind::BitAnd, ASTOperator::BitAnd, 6u8),
        (TokenKind::Plus, ASTOperator::Plus, 7u8),
        (TokenKind::Minus, ASTOperator::Minus, 7u8),
        (TokenKind::Mul, ASTOperator::Mul, 8u8),
        (TokenKind::Div, ASTOperator::Div, 8u8),
        (TokenKind::Mod, ASTOperator::Mod, 8u8),
    ]
}

fn operator_table() -> (r: Vec<(TokenKind, ASTOperator, u8)>)
    ensures
        r@ == operator_entries(),
{
    vec![
        (TokenKind::Assign, ASTOperator::Assign, 0u8),
        (TokenKind::BitRShift, ASTOperator::BitRShift, 1u8),
        (TokenKind::BitLShift, ASTOperator::BitLShift, 1u8),
        (TokenKind::Equal, ASTOperator::Equal, 2u8),
        (TokenKind::NotEqual, ASTOperator::NotEqual, 2u8),
        (TokenKind::RABracket, ASTOperator::Greater, 2u8),
        (TokenKind::LABracket, ASTOperator::Lesser, 2u8),
        (TokenKind::GreaterEqual, ASTOperator::GreaterEqual, 2u8),
        (TokenKind::LesserEqual, ASTOperator::LesserEqual, 2u8),
        (TokenKind::BoolOr, ASTOperator::BoolOr, 3u8),
        (TokenKind::BoolAnd, ASTOperator::BoolAnd, 4u8),
        (TokenKind::BitOr, ASTOperator::BitOr, 5u8),
        (TokenKind::BitAnd, ASTOperator::BitAnd, 6u8),
        (TokenKind::Plus, ASTOperator::Plus, 7u8),
        (TokenKind::Minus, ASTOperator::Minus, 7u8),
        (TokenKind::Mul, ASTOperator::Mul, 8u8),
        (TokenKind::Div, ASTOperator::Div, 8u8),
        (TokenKind::Mod, ASTOperator::Mod, 8u8),
    ]
}

/// The entries are the operators of the grammar, in the order of their
/// kinds.
proof fn lemma_operator_entries(i: int)
    requires
        0 <= i < 18,
    ensures
        operator_entries().len() == 18,
        operator_kinds().len() == 18,
        operator_kinds()[i] == operator_entries()[i].0,
        operator_of(operator_entries()[i].0) == (
            Some((operator_entries()[i].1, operator_entries()[i].2)),
            i + 1,
        ),
{
}

/// A kind that is none of the entries is the kind of no operator.
proof fn lemma_no_operator(kind: TokenKind)
    requires
        forall|i: int| 0 <= i < 18 ==> (#[trigger] operator_entries()[i]).0 != kind,
    ensures
        operator_of(kind) == (None::<(ASTOperator, u8)>, 18int),
{
    assert(operator_entries()[0].0 != kind);
    assert(operator_entries()[1].0 != kind);
    assert(operator_entries()[2].0 != kind);
    assert(operator_entries()[3].0 != kind);
    assert(operator_entries()[4].0 != kind);
    assert(operator_entries()[5].0 != kind);
    assert(operator_entries()[6].0 != kind);
    assert(operator_entries()[7].0 != kind);
    assert(operator_entries()[8].0 != kind);
    assert(operator_entries()[9].0 != kind);
    assert(operator_entries()[10].0 != kind);
    assert(operator_entries()[11].0 != kind);
    assert(operator_entries()[12].0 != kind);
    assert(operator_entries()[13].0 != kind);
    assert(operator_entries()[14].0 != kind);
    assert(operator_entries()[15].0 != kind);
    assert(operator_entries()[16].0 != kind);
    assert(operator_entries()[17].0 != kind);
}

/// Whether a semicolon has to follow a statement shows in its tree.
proof fn lemma_requires_semi(statement: &ASTStatement)
    ensures
        requires_semi(statement.tree()) == statement.spec_requires_semi(),
{
    match statement.kind {
        ASTStatementKind::Expression(e) => {
            assert(statement.tree().kind == StatementKindTree::Expression(e.tree()));
            match e.kind {
                ASTExpressionKind::If(_, _, _) => {
                    assert(e.tree().kind is If);
                },
                ASTExpressionKind::While(_, _) => {
                    assert(e.tree().kind is While);
                },
                ASTExpressionKind::Loop(_) => {
                    assert(e.tree().kind is Loop);
                },
                ASTExpressionKind::For(_, _, _) => {
                    assert(e.tree().kind is For);
                },
                ASTExpressionKind::Ident(_) => {
                    assert(e.tree().kind is Ident);
                },
                ASTExpressionKind::IntegerLiteral(_) => {
                    assert(e.tree().kind is IntegerLiteral);
                },
                ASTExpressionKind::Boolean(_) => {
                    assert(e.tree().kind is Boolean);
                },
                ASTExpressionKind::UnaryOperation(_, _) => {
                    assert(e.tree().kind is UnaryOperation);
                },
                ASTExpressionKind::BinaryOperation(_, _, _) => {
                    assert(e.tree().kind is BinaryOperation);
                },
                ASTExpressionKind::Block(_) => {
                    assert(e.tree().kind is Block);
                },
                ASTExpressionKind::TemplateApplication(_, _) => {
                    assert(e.tree().kind is TemplateApplication);
                },
                ASTExpressionKind::Call(_, _) => {
                    assert(e.tree().kind is Call);
                },
                ASTExpressionKind::Index(_, _) => {
                    assert(e.tree().kind is Index);
                },
                ASTExpressionKind::MemberAccess(_, _) => {
                    assert(e.tree().kind is MemberAccess);
                },
                ASTExpressionKind::StaticAccess(_, _) => {
                    assert(e.tree().kind is StaticAccess);
                },
            }
        },
        _ => {},
    }
}

impl Parser {
    /// The operator that the next token is between two operands, with its
    /// precedence.
    #[verifier::rlimit(50)]
    fn check_operator(&mut self) -> (r: Option<(ASTOperator, u8)>)
        requires
            old(self).wf(),
        ensures
            final(self).wf(),
            final(self).follows(old(self)),
            final(self).pos == old(self).pos,
            r == operator_of(old(self).tokens@[old(self).pos as int].kind).0,
            final(self).expected_tokens@ == old(self).expected_tokens@ + operator_kinds().take(
                operator_of(old(self).tokens@[old(self).pos as int].kind).1,
            ),
            r is Some ==> old(self).tokens@[old(self).pos as int].kind != TokenKind::EOF,
    {
        let table = operator_table();
        let ghost kind = self.tokens@[self.pos as int].kind;
        let mut i: usize = 0;
        proof {
            lemma_operator_entries(0);
            assert(self.expected_tokens@ =~= old(self).expected_tokens@ + operator_kinds().take(0));
        }
        while i < table.len()
            invariant
                i <= table.len() == 18,
                table@ == operator_entries(),
                self.wf(),
                self.follows(old(self)),
                self.pos == old(self).pos,
                kind == old(self).tokens@[old(self).pos as int].kind,
                self.expected_tokens@ == old(self).expected_tokens@ + operator_kinds().take(
                    i as int,
                ),
                forall|j: int| 0 <= j < i ==> (#[trigger] operator_entries()[j]).0 != kind,
            decreases table.len() - i,
        {
            proof {
                lemma_operator_entries(i as int);
                assert(operator_kinds().take(i + 1) =~= operator_kinds().take(i as int).push(
                    operator_kinds()[i as int],
                ));
                assert(old(self).expected_tokens@ + operator_kinds().take(i + 1) =~= (old(
                    self,
                ).expected_tokens@ + operator_kinds().take(i as int)).push(
                    operator_kinds()[i as int],
                ));
            }
            if self.check(table[i].0) {
                return Some((table[i].1, table[i].2));
            }
            i = i + 1;
        }
        proof {
            lemma_no_operator(kind);
        }
        None
    }

    /// What follows `if`, which stands at the offset `start`.
    #[verifier::rlimit(50)]
    fn parse_if(&mut self, start: usize, interner: &mut StringInterner) -> (r: Result<
        ASTExpression,
        ParserError,
    >)
        requires
            old(self).wf(),
            old(interner).wf(),
        ensures
            final(self).wf(),
            final(interner).wf(),
            final(self).follows(old(self)),
            match r {
                Ok(value) => parse_if(
                    old(self).toks(),
                    old(self).state(old(interner)),
                    start as nat,
                ) == Ok::<(ExpressionTree, ParserState), ErrorView>(
                    (value.tree(), final(self).state(final(interner))),
                ) && final(self).beyond(old(self)),
                Err(e) => parse_if(
                    old(self).toks(),
                    old(self).state(old(interner)),
                    start as nat,
                ) == Err::<(ExpressionTree, ParserState), ErrorView>(e@),
            },
        decreases old(self).remaining(), 6nat,
    {
        let condition = match self.parse_expression(interner) {
            Err(e) => {
                return Err(e);
            },
            Ok(condition) => condition,
        };
        let block = match self.parse_statement_block(interner) {
            Err(e) => {
                return Err(e);
            },
            Ok(block) => block,
        };
        let else_block = if self.check(TokenKind::KwElse) {
            self.advance();
            Some(match self.parse_statement_block(interner) {
            Err(e) => {
                return Err(e);
            },
            Ok(else_block) => else_block,
        })
        } else {
            None
        };
        Ok(
            ASTExpression {
                kind: ASTExpressionKind::If(Box::new(condition), block, else_block),
                span: self.close_span(start, interner),
            },
        )
    }

    /// What follows `while`, which stands at the offset `start`.
    #[verifier::rlimit(50)]
    fn parse_while(&mut self, start: usize, interner: &mut StringInterner) -> (r: Result<
        ASTExpression,
        ParserError,
    >)
        requires
            old(self).wf(),
            old(interner).wf(),
        ensures
            final(self).wf(),
            final(interner).wf(),
            final(self).follows(old(self)),
            match r {
                Ok(value) => parse_while(
                    old(self).toks(),
                    old(self).state(old(interner)),
                    start as nat,
                ) == Ok::<(ExpressionTree, ParserState), ErrorView>(
                    (value.tree(), final(self).state(final(interner))),
                ) && final(self).beyond(old(self)),
                Err(e) => parse_while(
                    old(self).toks(),
                    old(self).state(old(interner)),
                    start as nat,
                ) == Err::<(ExpressionTree, ParserState), ErrorView>(e@),
            },
        decreases old(self).remaining(), 6nat,
    {
        let condition = match self.parse_expression(interner) {
            Err(e) => {
                return Err(e);
            },
            Ok(condition) => condition,
        };
        let block = match self.parse_statement_block(interner) {
            Err(e) => {
                return Err(e);
            },
            Ok(block) => block,
        };
        Ok(
            ASTExpression {
                kind: ASTExpressionKind::While(Box::new(condition), block),
                span: self.close_span(start, interner),
            },
        )
    }

    /// What follows `for`, which stands at the offset `start`.
    #[verifier::rlimit(50)]
    fn parse_for(&mut self, start: usize, interner: &mut StringInterner) -> (r: Result<
        ASTExpression,
        ParserError,
    >)
        requires
            old(self).wf(),
            old(interner).wf(),
        ensures
            final(self).wf(),
            final(interner).wf(),
            final(self).follows(old(self)),
            match r {
                Ok(value) => parse_for(
                    old(self).toks(),
                    old(self).state(old(interner)),
                    start as nat,
                ) == Ok::<(ExpressionTree, ParserState), ErrorView>(
                    (value.tree(), final(self).state(final(interner))),
                ) && final(self).beyond(old(self)),
                Err(e) => parse_for(
                    old(self).toks(),
                    old(self).state(old(interner)),
                    start as nat,
                ) == Err::<(ExpressionTree, ParserState), ErrorView>(e@),
            },
        decreases old(self).remaining(), 6nat,
    {
        let variable = match self.expect_ident(interner) {
            Err(e) => {
                return Err(e);
            },
            Ok(variable) => variable,
        };
        match self.expect(TokenKind::KwIn, interner) {
            Err(e) => {
                return Err(e);
            },
            Ok(_) => {},
        }
        let iterated = match self.parse_expression(interner) {
            Err(e) => {
                return Err(e);
            },
            Ok(iterated) => iterated,
        };
        let block = match self.parse_statement_block(interner) {
            Err(e) => {
                return Err(e);
            },
            Ok(block) => block,
        };
        Ok(
            ASTExpression {
                kind: ASTExpressionKind::For(variable, Box::new(iterated), block),
                span: self.close_span(start, interner),
            },
        )
    }

    /// An identifier or a literal, if the next token is one.
    #[verifier::rlimit(100)]
    fn parse_atom(&mut self, interner: &mut StringInterner) -> (r: Option<
        Result<ASTExpression, ParserError>,
    >)
        requires
            old(self).wf(),
            old(interner).wf(),
        ensures
            final(self).wf(),
            final(interner).wf(),
            final(self).follows(old(self)),
            match r {
                Some(Ok(value)) => parse_primary_expression(
                    old(self).toks(),
                    old(self).state(old(interner)),
                ) == Ok::<(ExpressionTree, ParserState), ErrorView>(
                    (value.tree(), final(self).state(final(interner))),
                ) && final(self).beyond(old(self)),
                Some(Err(e)) => parse_primary_expression(
                    old(self).toks(),
                    old(self).state(old(interner)),
                ) == Err::<(ExpressionTree, ParserState), ErrorView>(e@),
                None => {
                    &&& final(self).pos == old(self).pos
                    &&& final(self).expected_tokens@ == old(self).expected_tokens@
                        + primary_kinds().take(4)
                    &&& final(interner).names() == old(interner).names()
                    &&& final(interner).count() == old(interner).count()
                    &&& old(self).tokens@[old(self).pos as int].kind != TokenKind::Ident
                    &&& old(self).tokens@[old(self).pos as int].kind != TokenKind::IntegerLiteral
                    &&& old(self).tokens@[old(self).pos as int].kind != TokenKind::BooleanTrue
                    &&& old(self).tokens@[old(self).pos as int].kind != TokenKind::BooleanFalse
                },
            },
    {
        let ghost st = self.state(interner);
        let start = self.peek().start;
        let token = self.peek();
        if self.check(TokenKind::Ident) {
            assert(self.expected_tokens@ =~= st.expected + primary_kinds().take(1));
            let symbol = match self.advance_symbol(interner) {
                Err(e) => {
                    return Some(Err(e));
                },
                Ok(symbol) => symbol,
            };
            return Some(
                Ok(
                    ASTExpression {
                        kind: ASTExpressionKind::Ident(symbol),
                        span: self.close_span(start, interner),
                    },
                ),
            );
        }
        if self.check(TokenKind::IntegerLiteral) {
            assert(self.expected_tokens@ =~= st.expected + primary_kinds().take(2));
            self.advance();
            match parse_decimal(&self.chars, token.first, token.end, u64::MAX) {
                Some(value) => {
                    return Some(
                        Ok(
                            ASTExpression {
                                kind: ASTExpressionKind::IntegerLiteral(value),
                                span: self.close_span(start, interner),
                            },
                        ),
                    );
                },
                None => {
                    return Some(Err(self.error_unexpected(interner)));
                },
            }
        }
        if self.check(TokenKind::BooleanTrue) {
            assert(self.expected_tokens@ =~= st.expected + primary_kinds().take(3));
            self.advance();
            return Some(
                Ok(
                    ASTExpression {
                        kind: ASTExpressionKind::Boolean(true),
                        span: self.close_span(start, interner),
                    },
                ),
            );
        }
        if self.check(TokenKind::BooleanFalse) {
            assert(self.expected_tokens@ =~= st.expected + primary_kinds().take(4));
            self.advance();
            return Some(
                Ok(
                    ASTExpression {
                        kind: ASTExpressionKind::Boolean(false),
                        span: self.close_span(start, interner),
                    },
                ),
            );
        }
        assert(self.expected_tokens@ =~= st.expected + primary_kinds().take(4));
        None
    }

    /// An expression that is no operation and is not followed by anything
    /// that applies to it.
    #[verifier::rlimit(100)]
    fn parse_primary_expression(&mut self, interner: &mut StringInterner) -> (r: Result<
        ASTExpression,
        ParserError,
    >)
        requires
            old(self).wf(),
            old(interner).wf(),
        ensures
            final(self).wf(),
            final(interner).wf(),
            final(self).follows(old(self)),
            match r {
                Ok(value) => parse_primary_expression(
                    old(self).toks(),
                    old(self).state(old(interner)),
                ) == Ok::<(ExpressionTree, ParserState), ErrorView>(
                    (value.tree(), final(self).state(final(interner))),
                ) && final(self).beyond(old(self)),
                Err(e) => parse_primary_expression(
                    old(self).toks(),
                    old(self).state(old(interner)),
                ) == Err::<(ExpressionTree, ParserState), ErrorView>(e@),
            },
        decreases old(self).remaining(), 1nat,
    {
        let ghost st = self.state(interner);
        let start = self.peek().start;
        let token = self.peek();
        match self.parse_atom(interner) {
            Some(r) => {
                return r;
            },
            None => {},
        }
        if self.check(TokenKind::LParen) {
            assert(self.expected_tokens@ =~= st.expected + primary_kinds().take(5));
            self.advance();
            let expression = match self.parse_expression(interner) {
                Err(e) => {
                    return Err(e);
                },
                Ok(expression) => expression,
            };
            match self.expect(TokenKind::RParen, interner) {
                Err(e) => {
                    return Err(e);
                },
                Ok(_) => {
                    return Ok(expression);
                },
            }
        }
        if self.check(TokenKind::LCBracket) {
            assert(self.expected_tokens@ =~= st.expected + primary_kinds().take(6));
            let block = match self.parse_statement_block(interner) {
                Err(e) => {
                    return Err(e);
                },
                Ok(block) => block,
            };
            return Ok(
                ASTExpression {
                    kind: ASTExpressionKind::Block(block),
                    span: self.close_span(start, interner),
                },
            );
        }
        if self.check(TokenKind::KwIf) {
            assert(self.expected_tokens@ =~= st.expected + primary_kinds().take(7));
            self.advance();
            return self.parse_if(start, interner);
        }
        if self.check(TokenKind::KwWhile) {
            assert(self.expected_tokens@ =~= st.expected + primary_kinds().take(8));
            self.advance();
            return self.parse_while(start, interner);
        }
        if self.check(TokenKind::KwLoop) {
            assert(self.expected_tokens@ =~= st.expected + primary_kinds().take(9));
            self.advance();
            let block = match self.parse_statement_block(interner) {
                Err(e) => {
                    return Err(e);
                },
                Ok(block) => block,
            };
            return Ok(
                ASTExpression {
                    kind: ASTExpressionKind::Loop(block),
                    span: self.close_span(start, interner),
                },
            );
        }
        if self.check(TokenKind::KwFor) {
            assert(self.expected_tokens@ =~= st.expected + primary_kinds());
            self.advance();
            return self.parse_for(start, interner);
        }
        assert(self.expected_tokens@ =~= st.expected + primary_kinds());
        Err(self.error_unexpected(interner))
    }

    /// The expressions behind `expressions`, each behind a comma.
    #[verifier::loop_isolation(false)]
    #[verifier::rlimit(50)]
    fn parse_expressions_rest(
        &mut self,
        expressions: Vec<ASTExpression>,
        interner: &mut StringInterner,
    ) -> (r: Result<Vec<ASTExpression>, ParserError>)
        requires
            old(self).wf(),
            old(interner).wf(),
        ensures
            final(self).wf(),
            final(interner).wf(),
            final(self).follows(old(self)),
            match r {
                Ok(value) => parse_expressions_rest(
                    old(self).toks(),
                    old(self).state(old(interner)),
                    expression_trees(expressions@),
                ) == Ok::<(Seq<ExpressionTree>, ParserState), ErrorView>(
                    (expression_trees(value@), final(self).state(final(interner))),
                ),
                Err(e) => parse_expressions_rest(
                    old(self).toks(),
                    old(self).state(old(interner)),
                    expression_trees(expressions@),
                ) == Err::<(Seq<ExpressionTree>, ParserState), ErrorView>(e@),
            },
        decreases old(self).remaining(), 7nat,
    {
        let mut expressions = expressions;
        let ghost tokens = self.toks();
        let ghost wanted = parse_expressions_rest(
            tokens,
            self.state(interner),
            expression_trees(expressions@),
        );
        loop
            invariant
                self.wf(),
                interner.wf(),
                self.follows(old(self)),
                tokens == self.toks(),
                wanted == parse_expressions_rest(
                    tokens,
                    self.state(interner),
                    expression_trees(expressions@),
                ),
            decreases self.tokens.len() - self.pos,
        {
            if !self.check(TokenKind::Comma) {
                return Ok(expressions);
            }
            self.advance();
            let expression = match self.parse_expression(interner) {
                Err(e) => {
                    return Err(e);
                },
                Ok(expression) => expression,
            };
            proof {
                assert(expression_trees(expressions@.push(expression)) =~= expression_trees(
                    expressions@,
                ).push(expression.tree()));
            }
            expressions.push(expression);
        }
    }

    /// The arguments of a call behind its opening bracket, up to the
    /// closing one.
    #[verifier::rlimit(50)]
    fn parse_call_args(&mut self, interner: &mut StringInterner) -> (r: Result<
        Vec<ASTExpression>,
        ParserError,
    >)
        requires
            old(self).wf(),
            old(interner).wf(),
        ensures
            final(self).wf(),
            final(interner).wf(),
            final(self).follows(old(self)),
            match r {
                Ok(value) => call_args(
                    old(self).toks(),
                    old(self).state(old(interner)),
                ) == Ok::<(Seq<ExpressionTree>, ParserState), ErrorView>(
                    (expression_trees(value@), final(self).state(final(interner))),
                ) && final(self).beyond(old(self)),
                Err(e) => call_args(
                    old(self).toks(),
                    old(self).state(old(interner)),
                ) == Err::<(Seq<ExpressionTree>, ParserState), ErrorView>(e@),
            },
        decreases old(self).remaining(), 6nat,
    {
        let mut args: Vec<ASTExpression> = Vec::new();
        if self.check(TokenKind::RParen) {
            self.advance();
            assert(expression_trees(args@) =~= Seq::<ExpressionTree>::empty());
            return Ok(args);
        }
        let first = match self.parse_expression(interner) {
                Err(e) => {
                    return Err(e);
                },
                Ok(first) => first,
            };
        args.push(first);
        assert(expression_trees(args@) =~= seq![first.tree()]);
        let args = match self.parse_expressions_rest(args, interner) {
                Err(e) => {
                    return Err(e);
                },
                Ok(args) => args,
            };
        match self.expect(TokenKind::RParen, interner) {
            Err(e) => Err(e),
            Ok(_) => Ok(args),
        }
    }

    /// What follows the expression, which began at the offset `start`,
    /// and applies to it.
    #[verifier::loop_isolation(false)]
    #[verifier::rlimit(100)]
    fn parse_postfix(
        &mut self,
        expression: ASTExpression,
        start: usize,
        interner: &mut StringInterner,
    ) -> (r: Result<ASTExpression, ParserError>)
        requires
            old(self).wf(),
            old(interner).wf(),
        ensures
            final(self).wf(),
            final(interner).wf(),
            final(self).follows(old(self)),
            match r {
                Ok(value) => parse_postfix(
                    old(self).toks(),
                    old(self).state(old(interner)),
                    expression.tree(),
                    start as nat,
                ) == Ok::<(ExpressionTree, ParserState), ErrorView>(
                    (value.tree(), final(self).state(final(interner))),
                ),
                Err(e) => parse_postfix(
                    old(self).toks(),
                    old(self).state(old(interner)),
                    expression.tree(),
                    start as nat,
                ) == Err::<(ExpressionTree, ParserState), ErrorView>(e@),
            },
        decreases old(self).remaining(), 7nat,
    {
        let mut expression = expression;
        let ghost tokens = self.toks();
        let ghost wanted = parse_postfix(
            tokens,
            self.state(interner),
            expression.tree(),
            start as nat,
        );
        loop
            invariant
                self.wf(),
                interner.wf(),
                self.follows(old(self)),
                tokens == self.toks(),
                wanted == parse_postfix(
                    tokens,
                    self.state(interner),
                    expression.tree(),
                    start as nat,
                ),
            decreases self.tokens.len() - self.pos,
        {
            let ghost st = self.state(interner);
            if self.check(TokenKind::Dot) {
                assert(self.expected_tokens@ =~= st.expected + postfix_kinds().take(1));
                self.advance();
                let member = match self.expect_ident(interner) {
                Err(e) => {
                    return Err(e);
                },
                Ok(member) => member,
            };
                expression = ASTExpression {
                    kind: ASTExpressionKind::MemberAccess(Box::new(expression), member),
                    span: self.close_span(start, interner),
                };
                continue ;
            }
            if self.check(TokenKind::ColonColon) {
                assert(self.expected_tokens@ =~= st.expected + postfix_kinds().take(2));
                self.advance();
                let member = match self.expect_ident(interner) {
                Err(e) => {
                    return Err(e);
                },
                Ok(member) => member,
            };
                expression = ASTExpression {
                    kind: ASTExpressionKind::StaticAccess(Box::new(expression), member),
                    span: self.close_span(start, interner),
                };
                continue ;
            }
            if self.check(TokenKind::LTurbofish) {
                assert(self.expected_tokens@ =~= st.expected + postfix_kinds().take(3));
                self.advance();
                let first = match self.parse_type(interner) {
                Err(e) => {
                    return Err(e);
                },
                Ok(first) => first,
            };
                let mut args: Vec<ASTType> = Vec::new();
                args.push(first);
                assert(type_trees(args@) =~= seq![first.tree()]);
                let args = match self.parse_types_rest(args, interner) {
                Err(e) => {
                    return Err(e);
                },
                Ok(args) => args,
            };
                match self.expect(TokenKind::RABracket, interner) {
                    Err(e) => {
                        return Err(e);
                    },
                    Ok(_) => {},
                }
                expression = ASTExpression {
                    kind: ASTExpressionKind::TemplateApplication(Box::new(expression), args),
                    span: self.close_span(start, interner),
                };
                continue ;
            }
            if self.check(TokenKind::LParen) {
                assert(self.expected_tokens@ =~= st.expected + postfix_kinds().take(4));
                self.advance();
                let args = match self.parse_call_args(interner) {
                Err(e) => {
                    return Err(e);
                },
                Ok(args) => args,
            };
                expression = ASTExpression {
                    kind: ASTExpressionKind::Call(Box::new(expression), args),
                    span: self.close_span(start, interner),
                };
                proof {
                    lemma_call_tree(&expression);
                }
                continue ;
            }
            if self.check(TokenKind::LSBracket) {
                assert(self.expected_tokens@ =~= st.expected + postfix_kinds());
                self.advance();
                let index = match self.parse_expression(interner) {
                Err(e) => {
                    return Err(e);
                },
                Ok(index) => index,
            };
                match self.expect(TokenKind::RSBracket, interner) {
                    Err(e) => {
                        return Err(e);
                    },
                    Ok(_) => {},
                }
                expression = ASTExpression {
                    kind: ASTExpressionKind::Index(Box::new(expression), Box::new(index)),
                    span: self.close_span(start, interner),
                };
                continue ;
            }
            assert(self.expected_tokens@ =~= st.expected + postfix_kinds());
            return Ok(expression);
        }
    }

    /// An expression with what follows it and applies to it.
    #[verifier::rlimit(50)]
    fn parse_application_and_access(&mut self, interner: &mut StringInterner) -> (r: Result<
        ASTExpression,
        ParserError,
    >)
        requires
            old(self).wf(),
            old(interner).wf(),
        ensures
            final(self).wf(),
            final(interner).wf(),
            final(self).follows(old(self)),
            match r {
                Ok(value) => parse_application_and_access(
                    old(self).toks(),
                    old(self).state(old(interner)),
                ) == Ok::<(ExpressionTree, ParserState), ErrorView>(
                    (value.tree(), final(self).state(final(interner))),
                ) && final(self).beyond(old(self)),
                Err(e) => parse_application_and_access(
                    old(self).toks(),
                    old(self).state(old(interner)),
                ) == Err::<(ExpressionTree, ParserState), ErrorView>(e@),
            },
        decreases old(self).remaining(), 2nat,
    {
        let start = self.peek().start;
        let expression = match self.parse_primary_expression(interner) {
                Err(e) => {
                    return Err(e);
                },
                Ok(expression) => expression,
            };
        self.parse_postfix(expression, start, interner)
    }

    /// An expression behind the operators that stand before it.
    #[verifier::rlimit(50)]
    fn parse_unary_expression(&mut self, interner: &mut StringInterner) -> (r: Result<
        ASTExpression,
        ParserError,
    >)
        requires
            old(self).wf(),
            old(interner).wf(),
        ensures
            final(self).wf(),
            final(interner).wf(),
            final(self).follows(old(self)),
            match r {
                Ok(value) => parse_unary_expression(
                    old(self).toks(),
                    old(self).state(old(interner)),
                ) == Ok::<(ExpressionTree, ParserState), ErrorView>(
                    (value.tree(), final(self).state(final(interner))),
                ) && final(self).beyond(old(self)),
                Err(e) => parse_unary_expression(
                    old(self).toks(),
                    old(self).state(old(interner)),
                ) == Err::<(ExpressionTree, ParserState), ErrorView>(e@),
            },
        decreases old(self).remaining(), 3nat,
    {
        let ghost st = self.state(interner);
        let start = self.peek().start;
        let operator = if self.check(TokenKind::BitNot) {
            assert(self.expected_tokens@ =~= st.expected + unary_kinds().take(1));
            Some(ASTOperator::BitNot)
        } else if self.check(TokenKind::BoolNot) {
            assert(self.expected_tokens@ =~= st.expected + unary_kinds().take(2));
            Some(ASTOperator::BoolNot)
        } else if self.check(TokenKind::Minus) {
            assert(self.expected_tokens@ =~= st.expected + unary_kinds().take(3));
            Some(ASTOperator::Minus)
        } else {
            assert(self.expected_tokens@ =~= st.expected + unary_kinds());
            None
        };
        match operator {
            Some(operator) => {
                self.advance();
                let operand = match self.parse_unary_expression(interner) {
                Err(e) => {
                    return Err(e);
                },
                Ok(operand) => operand,
            };
                Ok(
                    ASTExpression {
                        kind: ASTExpressionKind::UnaryOperation(operator, Box::new(operand)),
                        span: self.close_span(start, interner),
                    },
                )
            },
            None => self.parse_application_and_access(interner),
        }
    }

    /// The operations of which `left`, which began at the offset `start`,
    /// is the first operand.
    #[verifier::loop_isolation(false)]
    #[verifier::rlimit(50)]
    fn parse_operations(
        &mut self,
        left: ASTExpression,
        precedence: u8,
        start: usize,
        interner: &mut StringInterner,
    ) -> (r: Result<ASTExpression, ParserError>)
        requires
            old(self).wf(),
            old(interner).wf(),
        ensures
            final(self).wf(),
            final(interner).wf(),
            final(self).follows(old(self)),
            match r {
                Ok(value) => parse_operations(
                    old(self).toks(),
                    old(self).state(old(interner)),
                    left.tree(),
                    precedence,
                    start as nat,
                ) == Ok::<(ExpressionTree, ParserState), ErrorView>(
                    (value.tree(), final(self).state(final(interner))),
                ),
                Err(e) => parse_operations(
                    old(self).toks(),
                    old(self).state(old(interner)),
                    left.tree(),
                    precedence,
                    start as nat,
                ) == Err::<(ExpressionTree, ParserState), ErrorView>(e@),
            },
        decreases old(self).remaining(), 7nat,
    {
        let mut left = left;
        let ghost tokens = self.toks();
        let ghost wanted = parse_operations(
            tokens,
            self.state(interner),
            left.tree(),
            precedence,
            start as nat,
        );
        loop
            invariant
                self.wf(),
                interner.wf(),
                self.follows(old(self)),
                tokens == self.toks(),
                wanted == parse_operations(
                    tokens,
                    self.state(interner),
                    left.tree(),
                    precedence,
                    start as nat,
                ),
            decreases self.tokens.len() - self.pos,
        {
            let (operator, p) = match self.check_operator() {
                None => {
                    return Ok(left);
                },
                Some(found) => found,
            };
            if p < precedence {
                return Ok(left);
            }
            self.advance();
            let right = match self.parse_binary_operation_with_precedence(p, interner) {
                Err(e) => {
                    return Err(e);
                },
                Ok(right) => right,
            };
            left = ASTExpression {
                kind: ASTExpressionKind::BinaryOperation(operator, Box::new(left), Box::new(right)),
                span: self.close_span(start, interner),
            };
        }
    }

    /// An expression whose operators bind at least as strongly as
    /// `precedence`.
    #[verifier::rlimit(50)]
    fn parse_binary_operation_with_precedence(
        &mut self,
        precedence: u8,
        interner: &mut StringInterner,
    ) -> (r: Result<ASTExpression, ParserError>)
        requires
            old(self).wf(),
            old(interner).wf(),
        ensures
            final(self).wf(),
            final(interner).wf(),
            final(self).follows(old(self)),
            match r {
                Ok(value) => parse_binary_operation_with_precedence(
                    old(self).toks(),
                    old(self).state(old(interner)),
                    precedence,
                ) == Ok::<(ExpressionTree, ParserState), ErrorView>(
                    (value.tree(), final(self).state(final(interner))),
                ) && final(self).beyond(old(self)),
                Err(e) => parse_binary_operation_with_precedence(
                    old(self).toks(),
                    old(self).state(old(interner)),
                    precedence,
                ) == Err::<(ExpressionTree, ParserState), ErrorView>(e@),
            },
        decreases old(self).remaining(), 4nat,
    {
        let start = self.peek().start;
        let left = match self.parse_unary_expression(interner) {
                Err(e) => {
                    return Err(e);
                },
                Ok(left) => left,
            };
        self.parse_operations(left, precedence, start, interner)
    }

    /// An expression.
    pub fn parse_expression(&mut self, interner: &mut StringInterner) -> (r: Result<
        ASTExpression,
        ParserError,
    >)
        requires
            old(self).wf(),
            old(interner).wf(),
        ensures
            final(self).wf(),
            final(interner).wf(),
            final(self).follows(old(self)),
            match r {
                Ok(value) => parse_expression(
                    old(self).toks(),
                    old(self).state(old(interner)),
                ) == Ok::<(ExpressionTree, ParserState), ErrorView>(
                    (value.tree(), final(self).state(final(interner))),
                ) && final(self).beyond(old(self)),
                Err(e) => parse_expression(
                    old(self).toks(),
                    old(self).state(old(interner)),
                ) == Err::<(ExpressionTree, ParserState), ErrorView>(e@),
            },
        decreases old(self).remaining(), 5nat,
    {
        self.parse_binary_operation_with_precedence(0, interner)
    }

    /// A statement.
    #[verifier::rlimit(100)]
    fn parse_statement(&mut self, interner: &mut StringInterner) -> (r: Result<
        ASTStatement,
        ParserError,
    >)
        requires
            old(self).wf(),
            old(interner).wf(),
        ensures
            final(self).wf(),
            final(interner).wf(),
            final(self).follows(old(self)),
            match r {
                Ok(value) => parse_statement(
                    old(self).toks(),
                    old(self).state(old(interner)),
                ) == Ok::<(StatementTree, ParserState), ErrorView>(
                    (value.tree(), final(self).state(final(interner))),
                ) && final(self).beyond(old(self)),
                Err(e) => parse_statement(
                    old(self).toks(),
                    old(self).state(old(interner)),
                ) == Err::<(StatementTree, ParserState), ErrorView>(e@),
            },
        decreases old(self).remaining(), 7nat,
    {
        let ghost st = self.state(interner);
        let start = self.peek().start;
        if self.check(TokenKind::Semicolon) {
            assert(self.expected_tokens@ =~= st.expected + statement_kinds().take(1));
            self.advance();
            return Ok(
                ASTStatement {
                    kind: ASTStatementKind::Semicolon,
                    span: self.close_span(start, interner),
                },
            );
        }
        if self.check(TokenKind::KwLet) {
            assert(self.expected_tokens@ =~= st.expected + statement_kinds().take(2));
            self.advance();
            let name = match self.expect_ident(interner) {
                Err(e) => {
                    return Err(e);
                },
                Ok(name) => name,
            };
            let type_hint = if self.check(TokenKind::Colon) {
                self.advance();
                Some(match self.parse_type(interner) {
                Err(e) => {
                    return Err(e);
                },
                Ok(type_hint) => type_hint,
            })
            } else {
                None
            };
            let expression = if self.check(TokenKind::Assign) {
                self.advance();
                Some(match self.parse_expression(interner) {
                Err(e) => {
                    return Err(e);
                },
                Ok(expression) => expression,
            })
            } else {
                None
            };
            return Ok(
                ASTStatement {
                    kind: ASTStatementKind::LocalBinding(name, type_hint, expression),
                    span: self.close_span(start, interner),
                },
            );
        }
        if self.check(TokenKind::KwReturn) {
            assert(self.expected_tokens@ =~= st.expected + statement_kinds().take(3));
            self.advance();
            let expression = match self.parse_expression(interner) {
                Err(e) => {
                    return Err(e);
                },
                Ok(expression) => expression,
            };
            return Ok(
                ASTStatement {
                    kind: ASTStatementKind::Return(expression),
                    span: self.close_span(start, interner),
                },
            );
        }
        if self.check(TokenKind::KwBreak) {
            assert(self.expected_tokens@ =~= st.expected + statement_kinds().take(4));
            self.advance();
            return Ok(
                ASTStatement {
                    kind: ASTStatementKind::Break,
                    span: self.close_span(start, interner),
                },
            );
        }
        if self.check(TokenKind::KwContinue) {
            assert(self.expected_tokens@ =~= st.expected + statement_kinds().take(5));
            self.advance();
            return Ok(
                ASTStatement {
                    kind: ASTStatementKind::Continue,
                    span: self.close_span(start, interner),
                },
            );
        }
        let is_item = if self.check(TokenKind::KwStruct) {
            assert(self.expected_tokens@ =~= st.expected + statement_kinds().take(6));
            true
        } else if self.check(TokenKind::KwFn) {
            assert(self.expected_tokens@ =~= st.expected + statement_kinds().take(7));
            true
        } else if self.check(TokenKind::KwTemplate) {
            assert(self.expected_tokens@ =~= st.expected + statement_kinds().take(8));
            true
        } else {
            assert(self.expected_tokens@ =~= st.expected + statement_kinds());
            false
        };
        if is_item {
            let item = match self.parse_item(interner) {
                Err(e) => {
                    return Err(e);
                },
                Ok(item) => item,
            };
            return Ok(
                ASTStatement {
                    kind: ASTStatementKind::Item(item),
                    span: self.close_span(start, interner),
                },
            );
        }
        let expression = match self.parse_expression(interner) {
                Err(e) => {
                    return Err(e);
                },
                Ok(expression) => expression,
            };
        Ok(
            ASTStatement {
                kind: ASTStatementKind::Expression(expression),
                span: self.close_span(start, interner),
            },
        )
    }

    /// The statements of a block behind its opening bracket, up to the
    /// closing one.
    #[verifier::loop_isolation(false)]
    #[verifier::rlimit(50)]
    fn parse_statements(&mut self, interner: &mut StringInterner) -> (r: Result<
        Vec<ASTStatement>,
        ParserError,
    >)
        requires
            old(self).wf(),
            old(interner).wf(),
        ensures
            final(self).wf(),
            final(interner).wf(),
            final(self).follows(old(self)),
            match r {
                Ok(value) => parse_statements(
                    old(self).toks(),
                    old(self).state(old(interner)),
                    Seq::empty(),
                    false,
                ) == Ok::<(Seq<StatementTree>, ParserState), ErrorView>(
                    (statement_trees(value@), final(self).state(final(interner))),
                ) && final(self).beyond(old(self)),
                Err(e) => parse_statements(
                    old(self).toks(),
                    old(self).state(old(interner)),
                    Seq::empty(),
                    false,
                ) == Err::<(Seq<StatementTree>, ParserState), ErrorView>(e@),
            },
        decreases old(self).remaining(), 8nat,
    {
        let mut statements: Vec<ASTStatement> = Vec::new();
        let mut require_semi = false;
        let ghost tokens = self.toks();
        let ghost wanted = parse_statements(tokens, self.state(interner), Seq::empty(), false);
        assert(statement_trees(statements@) =~= Seq::<StatementTree>::empty());
        loop
            invariant
                self.wf(),
                interner.wf(),
                self.follows(old(self)),
                tokens == self.toks(),
                wanted == parse_statements(
                    tokens,
                    self.state(interner),
                    statement_trees(statements@),
                    require_semi,
                ),
            decreases self.tokens.len() - self.pos,
        {
            if self.check(TokenKind::RCBracket) {
                self.advance();
                return Ok(statements);
            }
            if require_semi {
                match self.expect(TokenKind::Semicolon, interner) {
                    Err(e) => {
                        return Err(e);
                    },
                    Ok(_) => {},
                }
            }
            if self.check(TokenKind::RCBracket) {
                self.advance();
                return Ok(statements);
            }
            let statement = match self.parse_statement(interner) {
                Err(e) => {
                    return Err(e);
                },
                Ok(statement) => statement,
            };
            require_semi = statement.requires_semi();
            proof {
                lemma_requires_semi(&statement);
                assert(statement_trees(statements@.push(statement)) =~= statement_trees(
                    statements@,
                ).push(statement.tree()));
            }
            statements.push(statement);
        }
    }

    /// A block of statements in brackets.
    #[verifier::rlimit(50)]
    fn parse_statement_block(&mut self, interner: &mut StringInterner) -> (r: Result<
        ASTStatementBlock,
        ParserError,
    >)
        requires
            old(self).wf(),
            old(interner).wf(),
        ensures
            final(self).wf(),
            final(interner).wf(),
            final(self).follows(old(self)),
            match r {
                Ok(value) => parse_statement_block(
                    old(self).toks(),
                    old(self).state(old(interner)),
                ) == Ok::<(BlockTree, ParserState), ErrorView>(
                    (value.tree(), final(self).state(final(interner))),
                ) && final(self).beyond(old(self)),
                Err(e) => parse_statement_block(
                    old(self).toks(),
                    old(self).state(old(interner)),
                ) == Err::<(BlockTree, ParserState), ErrorView>(e@),
            },
        decreases old(self).remaining(), 0nat,
    {
        let start = self.peek().start;
        match self.expect(TokenKind::LCBracket, interner) {
            Err(e) => {
                return Err(e);
            },
            Ok(_) => {},
        }
        let statements = match self.parse_statements(interner) {
                Err(e) => {
                    return Err(e);
                },
                Ok(statements) => statements,
            };
        let block = ASTStatementBlock { statements, span: self.close_span(start, interner) };
        proof {
            lemma_block_tree(&block);
        }
        Ok(block)
    }

    /// An item.
    #[verifier::rlimit(100)]
    fn parse_item(&mut self, interner: &mut StringInterner) -> (r: Result<ASTItem, ParserError>)
        requires
            old(self).wf(),
            old(interner).wf(),
        ensures
            final(self).wf(),
            final(interner).wf(),
            final(self).follows(old(self)),
            match r {
                Ok(value) => parse_item(
                    old(self).toks(),
                    old(self).state(old(interner)),
                ) == Ok::<(ItemTree, ParserState), ErrorView>(
                    (value.tree(), final(self).state(final(interner))),
                ) && final(self).beyond(old(self)),
                Err(e) => parse_item(
                    old(self).toks(),
                    old(self).state(old(interner)),
                ) == Err::<(ItemTree, ParserState), ErrorView>(e@),
            },
        decreases old(self).remaining(), 6nat,
    {
        let ghost st = self.state(interner);
        let start = self.peek().start;
        if self.check(TokenKind::KwFn) {
            assert(self.expected_tokens@ =~= st.expected + item_kinds().take(1));
            self.advance();
            let name = match self.expect_ident(interner) {
                Err(e) => {
                    return Err(e);
                },
                Ok(name) => name,
            };
            match self.expect(TokenKind::LParen, interner) {
                Err(e) => {
                    return Err(e);
                },
                Ok(_) => {},
            }
            let params = match self.parse_pairs(TokenKind::RParen, interner) {
                Err(e) => {
                    return Err(e);
                },
                Ok(params) => params,
            };
            let return_type = if self.check(TokenKind::Arrow) {
                self.advance();
                Some(match self.parse_type(interner) {
                Err(e) => {
                    return Err(e);
                },
                Ok(return_type) => return_type,
            })
            } else {
                None
            };
            let statement_block = match self.parse_statement_block(interner) {
                Err(e) => {
                    return Err(e);
                },
                Ok(statement_block) => statement_block,
            };
            return Ok(
                ASTItem {
                    kind: ASTItemKind::FunctionDef(
                        ASTFunctionDef {
                            name,
                            return_type,
                            params,
                            statement_block,
                            span: self.close_span(start, interner),
                        },
                    ),
                },
            );
        }
        if self.check(TokenKind::KwStruct) {
            assert(self.expected_tokens@ =~= st.expected + item_kinds().take(2));
            self.advance();
            let name = match self.expect_ident(interner) {
                Err(e) => {
                    return Err(e);
                },
                Ok(name) => name,
            };
            match self.expect(TokenKind::LCBracket, interner) {
                Err(e) => {
                    return Err(e);
                },
                Ok(_) => {},
            }
            let fields = match self.parse_pairs(TokenKind::RCBracket, interner) {
                Err(e) => {
                    return Err(e);
                },
                Ok(fields) => fields,
            };
            return Ok(
                ASTItem {
                    kind: ASTItemKind::StructDef(
                        ASTStructDef { name, fields, span: self.close_span(start, interner) },
                    ),
                },
            );
        }
        if self.check(TokenKind::KwTemplate) {
            assert(self.expected_tokens@ =~= st.expected + item_kinds());
            self.advance();
            match self.expect(TokenKind::LABracket, interner) {
                Err(e) => {
                    return Err(e);
                },
                Ok(_) => {},
            }
            let first = match self.expect_ident(interner) {
                Err(e) => {
                    return Err(e);
                },
                Ok(first) => first,
            };
            let mut firsts: Vec<Symbol> = Vec::new();
            firsts.push(first);
            assert(firsts@ =~= seq![first]);
            let params = match self.parse_symbols_rest(TokenKind::Comma, firsts, interner) {
                Err(e) => {
                    return Err(e);
                },
                Ok(params) => params,
            };
            match self.expect(TokenKind::RABracket, interner) {
                Err(e) => {
                    return Err(e);
                },
                Ok(_) => {},
            }
            let items = if self.check(TokenKind::LCBracket) {
                self.advance();
                let items = match self.parse_items(TokenKind::RCBracket, interner) {
                Err(e) => {
                    return Err(e);
                },
                Ok(items) => items,
            };
                self.advance();
                items
            } else {
                let item = match self.parse_item(interner) {
                Err(e) => {
                    return Err(e);
                },
                Ok(item) => item,
            };
                let mut items: Vec<ASTItem> = Vec::new();
                items.push(item);
                assert(item_trees(items@) =~= seq![item.tree()]);
                items
            };
            let item = ASTItem {
                kind: ASTItemKind::Template(
                    ASTTemplate { params, items, span: self.close_span(start, interner) },
                ),
            };
            proof {
                lemma_template_tree(&item);
            }
            return Ok(item);
        }
        assert(self.expected_tokens@ =~= st.expected + item_kinds());
        Err(self.error_unexpected(interner))
    }

    /// The items up to the token of the kind `closing`, which is not
    /// passed.
    #[verifier::loop_isolation(false)]
    #[verifier::rlimit(50)]
    fn parse_items(&mut self, closing: TokenKind, interner: &mut StringInterner) -> (r: Result<
        Vec<ASTItem>,
        ParserError,
    >)
        requires
            old(self).wf(),
            old(interner).wf(),
        ensures
            final(self).wf(),
            final(interner).wf(),
            final(self).follows(old(self)),
            match r {
                Ok(value) => parse_items(
                    old(self).toks(),
                    old(self).state(old(interner)),
                    closing,
                    Seq::empty(),
                ) == Ok::<(Seq<ItemTree>, ParserState), ErrorView>(
                    (item_trees(value@), final(self).state(final(interner))),
                ) && final(self).tokens@[final(self).pos as int].kind == closing,
                Err(e) => parse_items(
                    old(self).toks(),
                    old(self).state(old(interner)),
                    closing,
                    Seq::empty(),
                ) == Err::<(Seq<ItemTree>, ParserState), ErrorView>(e@),
            },
        decreases old(self).remaining(), 10nat,
    {
        let mut items: Vec<ASTItem> = Vec::new();
        let ghost tokens = self.toks();
        let ghost wanted = parse_items(tokens, self.state(interner), closing, Seq::empty());
        assert(item_trees(items@) =~= Seq::<ItemTree>::empty());
        loop
            invariant
                self.wf(),
                interner.wf(),
                self.follows(old(self)),
                tokens == self.toks(),
                wanted == parse_items(tokens, self.state(interner), closing, item_trees(items@)),
            decreases self.tokens.len() - self.pos,
        {
            if self.check(closing) {
                return Ok(items);
            }
            let item = match self.parse_item(interner) {
                Err(e) => {
                    return Err(e);
                },
                Ok(item) => item,
            };
            proof {
                assert(item_trees(items@.push(item)) =~= item_trees(items@).push(item.tree()));
            }
            items.push(item);
        }
    }

    /// A module: items up to the end of the text.
    #[verifier::rlimit(50)]
    pub fn parse_module(&mut self, interner: &mut StringInterner) -> (r: Result<
        ASTModule,
        ParserError,
    >)
        requires
            old(self).wf(),
            old(interner).wf(),
        ensures
            final(self).wf(),
            final(interner).wf(),
            final(self).follows(old(self)),
            match r {
                Ok(value) => parse_module(
                    old(self).toks(),
                    old(self).state(old(interner)),
                ) == Ok::<(ModuleTree, ParserState), ErrorView>(
                    (value.tree(), final(self).state(final(interner))),
                ),
                Err(e) => parse_module(
                    old(self).toks(),
                    old(self).state(old(interner)),
                ) == Err::<(ModuleTree, ParserState), ErrorView>(e@),
            },
    {
        let start = self.peek().start;
        let items = match self.parse_items(TokenKind::EOF, interner) {
                Err(e) => {
                    return Err(e);
                },
                Ok(items) => items,
            };
        Ok(ASTModule { items, span: self.close_span(start, interner) })
    }
}

/// Reads a module from its text. The names in the text are interned in
/// `interner`.
pub fn parse_source(src: &str, interner: &mut StringInterner) -> (r: Result<ASTModule, ParserError>)
    requires
        old(interner).wf(),
    ensures
        final(interner).wf(),
        match r {
            Ok(module) => {
                &&& parse(src@, old(interner).names(), old(interner).count()) matches Ok(
                    (tree, state),
                )
                &&& tree == module.tree()
                &&& state.names == final(interner).names()
                &&& state.count == final(interner).count()
            },
            Err(e) => parse(src@, old(interner).names(), old(interner).count()) == Err::<
                (ModuleTree, ParserState),
                ErrorView,
            >(e@),
        },
{
    let mut parser = Parser::new(lex(src), src);
    parser.parse_module(interner)
}

} // verus!
