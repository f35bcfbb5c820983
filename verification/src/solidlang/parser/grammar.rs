//! The grammar of the Solid language, as functions from tokens to the
//! syntax tree that they describe.
//!
//! ```text
//! module     := item*
//! item       := "fn" ident "(" pairs? ")" ("->" type)? block
//!             | "struct" ident "{" pairs? "}"
//!             | "template" "<" ident ("," ident)* ">" ("{" item* "}" | item)
//! pairs      := ident ":" type ("," ident ":" type)*
//! type       := ident ("::" ident)* ("<" type ("," type)* ">")? | "*" type
//! block      := "{" (statement (";"? statement)*)? ";"? "}"
//! statement  := ";" | "let" ident (":" type)? ("=" expression)?
//!             | "return" expression | "break" | "continue" | item | expression
//! expression := unary (operator expression)*
//! unary      := ("~" | "!" | "-") unary | primary postfix*
//! postfix    := "." ident | "::" ident | "::<" type ("," type)* ">"
//!             | "(" (expression ("," expression)*)? ")" | "[" expression "]"
//! primary    := ident | integer | "true" | "false" | "(" expression ")" | block
//!             | "if" expression block ("else" block)? | "while" expression block
//!             | "loop" block | "for" ident "in" expression block
//! ```
//!
//! A semicolon has to stand between two statements where the first one
//! requires it. An operator binds what follows it as far as the operators
//! there bind at least as strongly as it does.

use crate::globals::Symbol;
use crate::solidlang::ast::ASTOperator;
use crate::solidlang::lexer::{TokenKind, TokenView};
use crate::solidlang::span::Span;
use crate::solidlang::tree::{
    BlockTree, ExpressionKindTree, ExpressionTree, FunctionDefTree, ItemTree, ModuleTree,
    NameAndTypeTree, StatementKindTree, StatementTree, StructDefTree, TemplateTree, TypeKindTree,
    TypeTree,
};
use crate::text::decimal_value;
use vstd::prelude::*;

verus! {

/// Where the parser stands: the index of the next token, the kinds that it
/// has tried at that token, and the strings that are interned.
pub struct ParserState {
    pub pos: int,
    pub expected: Seq<TokenKind>,
    pub names: Map<Seq<char>, u64>,
    pub count: nat,
}

pub enum ErrorKindView {
    UnexpectedToken { expected: Seq<TokenKind>, got: TokenKind },
    TooManySymbols,
}

/// An error of the parser, with the place of the token at which it arose.
pub struct ErrorView {
    pub kind: ErrorKindView,
    pub span: Span,
}

pub type Parsed<T> = Result<(T, ParserState), ErrorView>;

/// The next token. Behind the last token the text has ended.
pub open spec fn peek(tokens: Seq<TokenView>, st: ParserState) -> TokenView {
    if 0 <= st.pos < tokens.len() {
        tokens[st.pos]
    } else {
        TokenView { kind: TokenKind::EOF, text: Seq::empty(), start: 0, len: 0 }
    }
}

/// The state after the kinds were tried at the next token, in their order.
pub open spec fn tried(st: ParserState, kinds: Seq<TokenKind>) -> ParserState {
    ParserState { expected: st.expected + kinds, ..st }
}

/// The state behind the next token.
pub open spec fn advance(st: ParserState) -> ParserState {
    ParserState { pos: st.pos + 1, expected: Seq::empty(), ..st }
}

/// The place of a token.
pub open spec fn token_span(token: TokenView) -> Span {
    Span { start: token.start as usize, len: token.len as usize }
}

/// The offset behind the last byte of a token, which is at most the
/// largest number.
pub open spec fn token_end(token: TokenView) -> nat {
    if token.start + token.len <= usize::MAX {
        token.start + token.len
    } else {
        usize::MAX as nat
    }
}

/// The offset behind the last token that the parser has passed.
pub open spec fn ending(tokens: Seq<TokenView>, st: ParserState) -> nat {
    if 0 < st.pos <= tokens.len() {
        token_end(tokens[st.pos - 1])
    } else {
        0
    }
}

/// The place of what was read from the offset `start` up to the state
/// `st`.
pub open spec fn close(tokens: Seq<TokenView>, start: nat, st: ParserState) -> Span {
    Span {
        start: start as usize,
        len: if ending(tokens, st) >= start {
            (ending(tokens, st) - start) as usize
        } else {
            0
        },
    }
}

/// The error for the next token, which is of none of the kinds that were
/// tried.
pub open spec fn error_unexpected(tokens: Seq<TokenView>, st: ParserState) -> ErrorView {
    ErrorView {
        kind: ErrorKindView::UnexpectedToken {
            expected: st.expected,
            got: peek(tokens, st).kind,
        },
        span: token_span(peek(tokens, st)),
    }
}

/// The result `r` of a part that began at `st`, if it has passed a token;
/// every part of the grammar that is read in a row does.
pub open spec fn passed<T>(tokens: Seq<TokenView>, st: ParserState, r: Parsed<T>) -> Parsed<T> {
    match r {
        Err(e) => Err(e),
        Ok((value, next)) => if st.pos < next.pos <= tokens.len() {
            r
        } else {
            Err(error_unexpected(tokens, next))
        },
    }
}

/// A token of the given kind.
pub open spec fn expect(tokens: Seq<TokenView>, st: ParserState, kind: TokenKind) -> Parsed<
    TokenView,
> {
    let next = tried(st, seq![kind]);
    if peek(tokens, st).kind == kind {
        Ok((peek(tokens, st), advance(next)))
    } else {
        Err(error_unexpected(tokens, next))
    }
}

/// The symbol of the next token, which is passed. Its text is interned if
/// it is new.
pub open spec fn advance_symbol(tokens: Seq<TokenView>, st: ParserState) -> Parsed<Symbol> {
    let token = peek(tokens, st);
    let text = if token.kind == TokenKind::EOF || token.kind == TokenKind::Error {
        Seq::empty()
    } else {
        token.text
    };
    let next = advance(st);
    if next.names.dom().contains(text) {
        Ok((Symbol { index: next.names[text] }, next))
    } else if next.count < u64::MAX {
        Ok(
            (
                Symbol { index: next.count as u64 },
                ParserState {
                    names: next.names.insert(text, next.count as u64),
                    count: next.count + 1,
                    ..next
                },
            ),
        )
    } else {
        Err(ErrorView { kind: ErrorKindView::TooManySymbols, span: token_span(token) })
    }
}

/// The symbol of a token of the given kind.
pub open spec fn expect_symbol(tokens: Seq<TokenView>, st: ParserState, kind: TokenKind)
    -> Parsed<Symbol> {
    let next = tried(st, seq![kind]);
    if peek(tokens, st).kind == kind {
        advance_symbol(tokens, next)
    } else {
        Err(error_unexpected(tokens, next))
    }
}

/// The symbol of an identifier.
pub open spec fn expect_ident(tokens: Seq<TokenView>, st: ParserState) -> Parsed<Symbol> {
    expect_symbol(tokens, st, TokenKind::Ident)
}

/// The identifiers behind the first one, each behind a token of the kind
/// `separator`.
pub open spec fn symbols_rest(
    tokens: Seq<TokenView>,
    st: ParserState,
    separator: TokenKind,
    symbols: Seq<Symbol>,
) -> Parsed<Seq<Symbol>>
    decreases tokens.len() - st.pos,
{
    let next = tried(st, seq![separator]);
    if peek(tokens, st).kind == separator {
        match passed(tokens, st, expect_ident(tokens, advance(next))) {
            Err(e) => Err(e),
            Ok((symbol, st1)) => symbols_rest(tokens, st1, separator, symbols.push(symbol)),
        }
    } else {
        Ok((symbols, next))
    }
}

/// A type: a path with its arguments, if it has any, or a pointer.
pub open spec fn parse_type(tokens: Seq<TokenView>, st: ParserState) -> Parsed<TypeTree>
    decreases tokens.len() - st.pos, 1nat,
{
    let start = peek(tokens, st).start;
    let kind = peek(tokens, st).kind;
    if kind == TokenKind::Ident {
        match advance_symbol(tokens, tried(st, seq![TokenKind::Ident])) {
            Err(e) => Err(e),
            Ok((first, st1)) => match passed(tokens, st, symbols_rest(tokens, st1, TokenKind::ColonColon, seq![first])) {
                Err(e) => Err(e),
                Ok((symbols, st2)) => {
                    let next = tried(st2, seq![TokenKind::LABracket]);
                    if peek(tokens, st2).kind == TokenKind::LABracket {
                        match passed(tokens, st, parse_type(tokens, advance(next))) {
                            Err(e) => Err(e),
                            Ok((first_arg, st3)) => match parse_type_args_rest(
                                tokens,
                                st3,
                                seq![first_arg],
                            ) {
                                Err(e) => Err(e),
                                Ok((generic_args, st4)) => Ok(
                                    (
                                        TypeTree {
                                            kind: TypeKindTree::Path { symbols, generic_args },
                                            span: close(tokens, start, st4),
                                        },
                                        st4,
                                    ),
                                ),
                            },
                        }
                    } else {
                        Ok(
                            (
                                TypeTree {
                                    kind: TypeKindTree::Path {
                                        symbols,
                                        generic_args: Seq::empty(),
                                    },
                                    span: close(tokens, start, next),
                                },
                                next,
                            ),
                        )
                    }
                },
            },
        }
    } else if kind == TokenKind::Mul {
        match parse_type(tokens, advance(tried(st, seq![TokenKind::Ident, TokenKind::Mul]))) {
            Err(e) => Err(e),
            Ok((inner, st1)) => Ok(
                (
                    TypeTree {
                        kind: TypeKindTree::PointerTo(Box::new(inner)),
                        span: close(tokens, start, st1),
                    },
                    st1,
                ),
            ),
        }
    } else {
        Err(error_unexpected(tokens, tried(st, seq![TokenKind::Ident, TokenKind::Mul])))
    }
}

/// The arguments of a type behind the first one, each behind a comma, up
/// to the closing bracket.
pub open spec fn parse_type_args_rest(
    tokens: Seq<TokenView>,
    st: ParserState,
    args: Seq<TypeTree>,
) -> Parsed<Seq<TypeTree>>
    decreases tokens.len() - st.pos, 0nat,
{
    let next = tried(st, seq![TokenKind::RABracket]);
    if peek(tokens, st).kind == TokenKind::RABracket {
        Ok((args, advance(next)))
    } else {
        match expect(tokens, next, TokenKind::Comma) {
            Err(e) => Err(e),
            Ok((_, st1)) => match passed(tokens, st, parse_type(tokens, st1)) {
                Err(e) => Err(e),
                Ok((arg, st2)) => parse_type_args_rest(tokens, st2, args.push(arg)),
            },
        }
    }
}

/// The types behind the first one, each behind a comma.
pub open spec fn parse_types_rest(tokens: Seq<TokenView>, st: ParserState, types: Seq<TypeTree>)
    -> Parsed<Seq<TypeTree>>
    decreases tokens.len() - st.pos,
{
    let next = tried(st, seq![TokenKind::Comma]);
    if peek(tokens, st).kind == TokenKind::Comma {
        match passed(tokens, st, parse_type(tokens, advance(next))) {
            Err(e) => Err(e),
            Ok((ast_type, st1)) => parse_types_rest(tokens, st1, types.push(ast_type)),
        }
    } else {
        Ok((types, next))
    }
}

/// A name with its type: `name: type`.
pub open spec fn parse_name_and_type(tokens: Seq<TokenView>, st: ParserState) -> Parsed<
    NameAndTypeTree,
> {
    let start = peek(tokens, st).start;
    match expect_ident(tokens, st) {
        Err(e) => Err(e),
        Ok((name, st1)) => match expect(tokens, st1, TokenKind::Colon) {
            Err(e) => Err(e),
            Ok((_, st2)) => match parse_type(tokens, st2) {
                Err(e) => Err(e),
                Ok((ast_type, st3)) => Ok(
                    (NameAndTypeTree { name, ast_type, span: close(tokens, start, st3) }, st3),
                ),
            },
        },
    }
}

/// The names with their types behind the first one, each behind a comma.
pub open spec fn parse_pairs_rest(
    tokens: Seq<TokenView>,
    st: ParserState,
    pairs: Seq<NameAndTypeTree>,
) -> Parsed<Seq<NameAndTypeTree>>
    decreases tokens.len() - st.pos,
{
    let next = tried(st, seq![TokenKind::Comma]);
    if peek(tokens, st).kind == TokenKind::Comma {
        match passed(tokens, st, parse_name_and_type(tokens, advance(next))) {
            Err(e) => Err(e),
            Ok((pair, st1)) => parse_pairs_rest(tokens, st1, pairs.push(pair)),
        }
    } else {
        Ok((pairs, next))
    }
}

/// Names with their types, separated by commas, up to the token of the
/// kind `closing`; or that token alone.
pub open spec fn parse_pairs(tokens: Seq<TokenView>, st: ParserState, closing: TokenKind)
    -> Parsed<Seq<NameAndTypeTree>> {
    let next = tried(st, seq![closing]);
    if peek(tokens, st).kind == closing {
        Ok((Seq::empty(), advance(next)))
    } else {
        match parse_name_and_type(tokens, next) {
            Err(e) => Err(e),
            Ok((first, st1)) => match parse_pairs_rest(tokens, st1, seq![first]) {
                Err(e) => Err(e),
                Ok((pairs, st2)) => match expect(tokens, st2, closing) {
                    Err(e) => Err(e),
                    Ok((_, st3)) => Ok((pairs, st3)),
                },
            },
        }
    }
}

/// The operator that a token of the given kind is between two operands,
/// with its precedence; and the number of kinds that are tried until it is
/// found, or until none is.
pub open spec fn operator_of(kind: TokenKind) -> (Option<(ASTOperator, u8)>, int) {
    match kind {
        TokenKind::Assign => (Some((ASTOperator::Assign, 0u8)), 1),
        TokenKind::BitRShift => (Some((ASTOperator::BitRShift, 1u8)), 2),
        TokenKind::BitLShift => (Some((ASTOperator::BitLShift, 1u8)), 3),
        TokenKind::Equal => (Some((ASTOperator::Equal, 2u8)), 4),
        TokenKind::NotEqual => (Some((ASTOperator::NotEqual, 2u8)), 5),
        TokenKind::RABracket => (Some((ASTOperator::Greater, 2u8)), 6),
        TokenKind::LABracket => (Some((ASTOperator::Lesser, 2u8)), 7),
        TokenKind::GreaterEqual => (Some((ASTOperator::GreaterEqual, 2u8)), 8),
        TokenKind::LesserEqual => (Some((ASTOperator::LesserEqual, 2u8)), 9),
        TokenKind::BoolOr => (Some((ASTOperator::BoolOr, 3u8)), 10),
        TokenKind::BoolAnd => (Some((ASTOperator::BoolAnd, 4u8)), 11),
        TokenKind::BitOr => (Some((ASTOperator::BitOr, 5u8)), 12),
        TokenKind::BitAnd => (Some((ASTOperator::BitAnd, 6u8)), 13),
        TokenKind::Plus => (Some((ASTOperator::Plus, 7u8)), 14),
        TokenKind::Minus => (Some((ASTOperator::Minus, 7u8)), 15),
        TokenKind::Mul => (Some((ASTOperator::Mul, 8u8)), 16),
        TokenKind::Div => (Some((ASTOperator::Div, 8u8)), 17),
        TokenKind::Mod => (Some((ASTOperator::Mod, 8u8)), 18),
        _ => (None, 18),
    }
}

/// The kinds of the operators, in the order in which they are tried.
pub open spec fn operator_kinds() -> Seq<TokenKind> {
    seq![
        TokenKind::Assign,
        TokenKind::BitRShift,
        TokenKind::BitLShift,
        TokenKind::Equal,
        TokenKind::NotEqual,
        TokenKind::RABracket,
        TokenKind::LABracket,
        TokenKind::GreaterEqual,
        TokenKind::LesserEqual,
        TokenKind::BoolOr,
        TokenKind::BoolAnd,
        TokenKind::BitOr,
        TokenKind::BitAnd,
        TokenKind::Plus,
        TokenKind::Minus,
        TokenKind::Mul,
        TokenKind::Div,
        TokenKind::Mod,
    ]
}

/// The kinds with which an expression can begin that is no operation, in
/// the order in which they are tried.
pub open spec fn primary_kinds() -> Seq<TokenKind> {
    seq![
        TokenKind::Ident,
        TokenKind::IntegerLiteral,
        TokenKind::BooleanTrue,
        TokenKind::BooleanFalse,
        TokenKind::LParen,
        TokenKind::LCBracket,
        TokenKind::KwIf,
        TokenKind::KwWhile,
        TokenKind::KwLoop,
        TokenKind::KwFor,
    ]
}

/// The kinds with which what follows an expression can begin, in the order
/// in which they are tried.
pub open spec fn postfix_kinds() -> Seq<TokenKind> {
    seq![
        TokenKind::Dot,
        TokenKind::ColonColon,
        TokenKind::LTurbofish,
        TokenKind::LParen,
        TokenKind::LSBracket,
    ]
}

/// The kinds of the operators that stand before their operand, in the
/// order in which they are tried.
pub open spec fn unary_kinds() -> Seq<TokenKind> {
    seq![TokenKind::BitNot, TokenKind::BoolNot, TokenKind::Minus]
}

/// The kinds with which a statement can begin that is no expression, in
/// the order in which they are tried.
pub open spec fn statement_kinds() -> Seq<TokenKind> {
    seq![
        TokenKind::Semicolon,
        TokenKind::KwLet,
        TokenKind::KwReturn,
        TokenKind::KwBreak,
        TokenKind::KwContinue,
        TokenKind::KwStruct,
        TokenKind::KwFn,
        TokenKind::KwTemplate,
    ]
}

/// The kinds with which an item can begin, in the order in which they are
/// tried.
pub open spec fn item_kinds() -> Seq<TokenKind> {
    seq![TokenKind::KwFn, TokenKind::KwStruct, TokenKind::KwTemplate]
}

/// The expression of the given kind that was read from the offset `start`
/// up to the state `st`.
pub open spec fn expression_at(
    tokens: Seq<TokenView>,
    start: nat,
    st: ParserState,
    kind: ExpressionKindTree,
) -> Parsed<ExpressionTree> {
    Ok((ExpressionTree { kind, span: close(tokens, start, st) }, st))
}

/// The statement of the given kind that was read from the offset `start`
/// up to the state `st`.
pub open spec fn statement_at(
    tokens: Seq<TokenView>,
    start: nat,
    st: ParserState,
    kind: StatementKindTree,
) -> Parsed<StatementTree> {
    Ok((StatementTree { kind, span: close(tokens, start, st) }, st))
}

/// Whether a semicolon has to follow the statement before the next one
/// begins.
pub open spec fn requires_semi(statement: StatementTree) -> bool {
    match statement.kind {
        StatementKindTree::Expression(e) => match e.kind {
            ExpressionKindTree::If(_, _, _) => false,
            ExpressionKindTree::While(_, _) => false,
            ExpressionKindTree::Loop(_) => false,
            ExpressionKindTree::For(_, _, _) => false,
            _ => true,
        },
        StatementKindTree::Item(_) => false,
        StatementKindTree::Semicolon => false,
        _ => true,
    }
}

/// What follows `if`, which stands at the offset `start`: the condition,
/// the block and, behind `else`, another block.
pub open spec fn parse_if(tokens: Seq<TokenView>, st: ParserState, start: nat) -> Parsed<
    ExpressionTree,
>
    decreases tokens.len() - st.pos, 6nat,
{
    match passed(tokens, st, parse_expression(tokens, st)) {
        Err(e) => Err(e),
        Ok((condition, st1)) => match passed(tokens, st, parse_statement_block(tokens, st1)) {
            Err(e) => Err(e),
            Ok((block, st2)) => {
                let next = tried(st2, seq![TokenKind::KwElse]);
                if peek(tokens, st2).kind == TokenKind::KwElse {
                    match parse_statement_block(tokens, advance(next)) {
                        Err(e) => Err(e),
                        Ok((else_block, st3)) => expression_at(
                            tokens,
                            start,
                            st3,
                            ExpressionKindTree::If(Box::new(condition), block, Some(else_block)),
                        ),
                    }
                } else {
                    expression_at(
                        tokens,
                        start,
                        next,
                        ExpressionKindTree::If(Box::new(condition), block, None),
                    )
                }
            },
        },
    }
}

/// What follows `while`, which stands at the offset `start`: the
/// condition and the block.
pub open spec fn parse_while(tokens: Seq<TokenView>, st: ParserState, start: nat) -> Parsed<
    ExpressionTree,
>
    decreases tokens.len() - st.pos, 6nat,
{
    match passed(tokens, st, parse_expression(tokens, st)) {
        Err(e) => Err(e),
        Ok((condition, st1)) => match parse_statement_block(tokens, st1) {
            Err(e) => Err(e),
            Ok((block, st2)) => expression_at(
                tokens,
                start,
                st2,
                ExpressionKindTree::While(Box::new(condition), block),
            ),
        },
    }
}

/// What follows `for`, which stands at the offset `start`: the variable,
/// `in`, what is iterated and the block.
pub open spec fn parse_for(tokens: Seq<TokenView>, st: ParserState, start: nat) -> Parsed<
    ExpressionTree,
>
    decreases tokens.len() - st.pos, 6nat,
{
    match passed(tokens, st, expect_ident(tokens, st)) {
        Err(e) => Err(e),
        Ok((variable, st1)) => match passed(tokens, st, expect(tokens, st1, TokenKind::KwIn)) {
            Err(e) => Err(e),
            Ok((_, st2)) => match passed(tokens, st, parse_expression(tokens, st2)) {
                Err(e) => Err(e),
                Ok((iterated, st3)) => match parse_statement_block(tokens, st3) {
                    Err(e) => Err(e),
                    Ok((block, st4)) => expression_at(
                        tokens,
                        start,
                        st4,
                        ExpressionKindTree::For(variable, Box::new(iterated), block),
                    ),
                },
            },
        },
    }
}

/// An expression that is no operation and is not followed by anything
/// that applies to it.
pub open spec fn parse_primary_expression(tokens: Seq<TokenView>, st: ParserState) -> Parsed<
    ExpressionTree,
>
    decreases tokens.len() - st.pos, 1nat,
{
    let token = peek(tokens, st);
    let start = token.start;
    let kind = token.kind;
    if kind == TokenKind::Ident {
        match advance_symbol(tokens, tried(st, primary_kinds().take(1))) {
            Err(e) => Err(e),
            Ok((symbol, st1)) => expression_at(tokens, start, st1, ExpressionKindTree::Ident(symbol)),
        }
    } else if kind == TokenKind::IntegerLiteral {
        let next = advance(tried(st, primary_kinds().take(2)));
        if decimal_value(token.text) <= u64::MAX {
            expression_at(
                tokens,
                start,
                next,
                ExpressionKindTree::IntegerLiteral(decimal_value(token.text) as u64),
            )
        } else {
            Err(error_unexpected(tokens, next))
        }
    } else if kind == TokenKind::BooleanTrue {
        expression_at(
            tokens,
            start,
            advance(tried(st, primary_kinds().take(3))),
            ExpressionKindTree::Boolean(true),
        )
    } else if kind == TokenKind::BooleanFalse {
        expression_at(
            tokens,
            start,
            advance(tried(st, primary_kinds().take(4))),
            ExpressionKindTree::Boolean(false),
        )
    } else if kind == TokenKind::LParen {
        match parse_expression(tokens, advance(tried(st, primary_kinds().take(5)))) {
            Err(e) => Err(e),
            Ok((expression, st1)) => match expect(tokens, st1, TokenKind::RParen) {
                Err(e) => Err(e),
                Ok((_, st2)) => Ok((expression, st2)),
            },
        }
    } else if kind == TokenKind::LCBracket {
        match parse_statement_block(tokens, tried(st, primary_kinds().take(6))) {
            Err(e) => Err(e),
            Ok((block, st1)) => expression_at(tokens, start, st1, ExpressionKindTree::Block(block)),
        }
    } else if kind == TokenKind::KwIf {
        parse_if(tokens, advance(tried(st, primary_kinds().take(7))), start)
    } else if kind == TokenKind::KwWhile {
        parse_while(tokens, advance(tried(st, primary_kinds().take(8))), start)
    } else if kind == TokenKind::KwLoop {
        match parse_statement_block(tokens, advance(tried(st, primary_kinds().take(9)))) {
            Err(e) => Err(e),
            Ok((block, st1)) => expression_at(tokens, start, st1, ExpressionKindTree::Loop(block)),
        }
    } else if kind == TokenKind::KwFor {
        parse_for(tokens, advance(tried(st, primary_kinds())), start)
    } else {
        Err(error_unexpected(tokens, tried(st, primary_kinds())))
    }
}

/// The expressions behind the first one, each behind a comma.
pub open spec fn parse_expressions_rest(
    tokens: Seq<TokenView>,
    st: ParserState,
    expressions: Seq<ExpressionTree>,
) -> Parsed<Seq<ExpressionTree>>
    decreases tokens.len() - st.pos, 7nat,
{
    let next = tried(st, seq![TokenKind::Comma]);
    if peek(tokens, st).kind == TokenKind::Comma {
        match passed(tokens, st, parse_expression(tokens, advance(next))) {
            Err(e) => Err(e),
            Ok((expression, st1)) => parse_expressions_rest(
                tokens,
                st1,
                expressions.push(expression),
            ),
        }
    } else {
        Ok((expressions, next))
    }
}

/// The arguments of a call behind its opening bracket, separated by
/// commas, up to the closing bracket.
pub open spec fn call_args(tokens: Seq<TokenView>, st: ParserState) -> Parsed<Seq<ExpressionTree>>
    decreases tokens.len() - st.pos, 6nat,
{
    let next = tried(st, seq![TokenKind::RParen]);
    if peek(tokens, st).kind == TokenKind::RParen {
        Ok((Seq::empty(), advance(next)))
    } else {
        match passed(tokens, st, parse_expression(tokens, next)) {
            Err(e) => Err(e),
            Ok((first, st1)) => match parse_expressions_rest(tokens, st1, seq![first]) {
                Err(e) => Err(e),
                Ok((args, st2)) => match expect(tokens, st2, TokenKind::RParen) {
                    Err(e) => Err(e),
                    Ok((_, st3)) => Ok((args, st3)),
                },
            },
        }
    }
}

/// What follows an expression and applies to it: the access to a member,
/// the arguments of a template or of a call, or an index; each of them
/// applies to everything before it. The expression began at the offset
/// `start`.
pub open spec fn parse_postfix(
    tokens: Seq<TokenView>,
    st: ParserState,
    expression: ExpressionTree,
    start: nat,
) -> Parsed<ExpressionTree>
    decreases tokens.len() - st.pos, 7nat,
{
    let kind = peek(tokens, st).kind;
    if kind == TokenKind::Dot {
        match passed(tokens, st, expect_ident(tokens, advance(tried(st, postfix_kinds().take(1))))) {
            Err(e) => Err(e),
            Ok((member, st1)) => parse_postfix(
                tokens,
                st1,
                ExpressionTree {
                    kind: ExpressionKindTree::MemberAccess(Box::new(expression), member),
                    span: close(tokens, start, st1),
                },
                start,
            ),
        }
    } else if kind == TokenKind::ColonColon {
        match passed(tokens, st, expect_ident(tokens, advance(tried(st, postfix_kinds().take(2))))) {
            Err(e) => Err(e),
            Ok((member, st1)) => parse_postfix(
                tokens,
                st1,
                ExpressionTree {
                    kind: ExpressionKindTree::StaticAccess(Box::new(expression), member),
                    span: close(tokens, start, st1),
                },
                start,
            ),
        }
    } else if kind == TokenKind::LTurbofish {
        match parse_type(tokens, advance(tried(st, postfix_kinds().take(3)))) {
            Err(e) => Err(e),
            Ok((first, st1)) => match parse_types_rest(tokens, st1, seq![first]) {
                Err(e) => Err(e),
                Ok((args, st2)) => match passed(
                    tokens,
                    st,
                    expect(tokens, st2, TokenKind::RABracket),
                ) {
                    Err(e) => Err(e),
                    Ok((_, st3)) => parse_postfix(
                        tokens,
                        st3,
                        ExpressionTree {
                            kind: ExpressionKindTree::TemplateApplication(
                                Box::new(expression),
                                args,
                            ),
                            span: close(tokens, start, st3),
                        },
                        start,
                    ),
                },
            },
        }
    } else if kind == TokenKind::LParen {
        match passed(tokens, st, call_args(tokens, advance(tried(st, postfix_kinds().take(4))))) {
            Err(e) => Err(e),
            Ok((args, st3)) => parse_postfix(
                tokens,
                st3,
                ExpressionTree {
                    kind: ExpressionKindTree::Call(Box::new(expression), args),
                    span: close(tokens, start, st3),
                },
                start,
            ),
        }
    } else if kind == TokenKind::LSBracket {
        match parse_expression(tokens, advance(tried(st, postfix_kinds()))) {
            Err(e) => Err(e),
            Ok((index, st1)) => match passed(
                tokens,
                st,
                expect(tokens, st1, TokenKind::RSBracket),
            ) {
                Err(e) => Err(e),
                Ok((_, st2)) => parse_postfix(
                    tokens,
                    st2,
                    ExpressionTree {
                        kind: ExpressionKindTree::Index(Box::new(expression), Box::new(index)),
                        span: close(tokens, start, st2),
                    },
                    start,
                ),
            },
        }
    } else {
        Ok((expression, tried(st, postfix_kinds())))
    }
}

/// An expression with what follows it and applies to it.
pub open spec fn parse_application_and_access(tokens: Seq<TokenView>, st: ParserState) -> Parsed<
    ExpressionTree,
>
    decreases tokens.len() - st.pos, 2nat,
{
    match passed(tokens, st, parse_primary_expression(tokens, st)) {
        Err(e) => Err(e),
        Ok((expression, st1)) => parse_postfix(tokens, st1, expression, peek(tokens, st).start),
    }
}

/// An expression behind the operators that stand before it.
pub open spec fn parse_unary_expression(tokens: Seq<TokenView>, st: ParserState) -> Parsed<
    ExpressionTree,
>
    decreases tokens.len() - st.pos, 3nat,
{
    let start = peek(tokens, st).start;
    let kind = peek(tokens, st).kind;
    if kind == TokenKind::BitNot || kind == TokenKind::BoolNot || kind == TokenKind::Minus {
        let (operator, trials) = if kind == TokenKind::BitNot {
            (ASTOperator::BitNot, 1)
        } else if kind == TokenKind::BoolNot {
            (ASTOperator::BoolNot, 2)
        } else {
            (ASTOperator::Minus, 3)
        };
        match parse_unary_expression(tokens, advance(tried(st, unary_kinds().take(trials)))) {
            Err(e) => Err(e),
            Ok((operand, st1)) => expression_at(
                tokens,
                start,
                st1,
                ExpressionKindTree::UnaryOperation(operator, Box::new(operand)),
            ),
        }
    } else {
        parse_application_and_access(tokens, tried(st, unary_kinds()))
    }
}

/// The operations of which `left` is the first operand, as far as their
/// operators bind at least as strongly as `precedence`. What follows an
/// operator is its second operand as far as the operators there bind at
/// least as strongly as it. The first operand began at the offset `start`.
pub open spec fn parse_operations(
    tokens: Seq<TokenView>,
    st: ParserState,
    left: ExpressionTree,
    precedence: u8,
    start: nat,
) -> Parsed<ExpressionTree>
    decreases tokens.len() - st.pos, 7nat,
{
    let (found, trials) = operator_of(peek(tokens, st).kind);
    let next = tried(st, operator_kinds().take(trials));
    match found {
        Some((operator, p)) => if p < precedence {
            Ok((left, next))
        } else {
            match passed(
                tokens,
                st,
                parse_binary_operation_with_precedence(tokens, advance(next), p),
            ) {
                Err(e) => Err(e),
                Ok((right, st1)) => parse_operations(
                    tokens,
                    st1,
                    ExpressionTree {
                        kind: ExpressionKindTree::BinaryOperation(
                            operator,
                            Box::new(left),
                            Box::new(right),
                        ),
                        span: close(tokens, start, st1),
                    },
                    precedence,
                    start,
                ),
            }
        },
        None => Ok((left, next)),
    }
}

/// An expression whose operators bind at least as strongly as
/// `precedence`.
pub open spec fn parse_binary_operation_with_precedence(
    tokens: Seq<TokenView>,
    st: ParserState,
    precedence: u8,
) -> Parsed<ExpressionTree>
    decreases tokens.len() - st.pos, 4nat,
{
    match passed(tokens, st, parse_unary_expression(tokens, st)) {
        Err(e) => Err(e),
        Ok((left, st1)) => parse_operations(
            tokens,
            st1,
            left,
            precedence,
            peek(tokens, st).start,
        ),
    }
}

/// An expression.
pub open spec fn parse_expression(tokens: Seq<TokenView>, st: ParserState) -> Parsed<
    ExpressionTree,
>
    decreases tokens.len() - st.pos, 5nat,
{
    parse_binary_operation_with_precedence(tokens, st, 0)
}

/// A statement.
pub open spec fn parse_statement(tokens: Seq<TokenView>, st: ParserState) -> Parsed<StatementTree>
    decreases tokens.len() - st.pos, 7nat,
{
    let start = peek(tokens, st).start;
    let kind = peek(tokens, st).kind;
    if kind == TokenKind::Semicolon {
        statement_at(
            tokens,
            start,
            advance(tried(st, statement_kinds().take(1))),
            StatementKindTree::Semicolon,
        )
    } else if kind == TokenKind::KwLet {
        match expect_ident(tokens, advance(tried(st, statement_kinds().take(2)))) {
            Err(e) => Err(e),
            Ok((name, st1)) => {
                let hinted = if peek(tokens, st1).kind == TokenKind::Colon {
                    match parse_type(tokens, advance(tried(st1, seq![TokenKind::Colon]))) {
                        Err(e) => Err(e),
                        Ok((type_hint, st2)) => Ok((Some(type_hint), st2)),
                    }
                } else {
                    Ok((None, tried(st1, seq![TokenKind::Colon])))
                };
                match passed(tokens, st, hinted) {
                    Err(e) => Err(e),
                    Ok((type_hint, st2)) => {
                        let next = tried(st2, seq![TokenKind::Assign]);
                        if peek(tokens, st2).kind == TokenKind::Assign {
                            match parse_expression(tokens, advance(next)) {
                                Err(e) => Err(e),
                                Ok((expression, st3)) => statement_at(
                                    tokens,
                                    start,
                                    st3,
                                    StatementKindTree::LocalBinding(
                                        name,
                                        type_hint,
                                        Some(expression),
                                    ),
                                ),
                            }
                        } else {
                            statement_at(
                                tokens,
                                start,
                                next,
                                StatementKindTree::LocalBinding(name, type_hint, None),
                            )
                        }
                    },
                }
            },
        }
    } else if kind == TokenKind::KwReturn {
        match parse_expression(tokens, advance(tried(st, statement_kinds().take(3)))) {
            Err(e) => Err(e),
            Ok((expression, st1)) => statement_at(
                tokens,
                start,
                st1,
                StatementKindTree::Return(expression),
            ),
        }
    } else if kind == TokenKind::KwBreak {
        statement_at(
            tokens,
            start,
            advance(tried(st, statement_kinds().take(4))),
            StatementKindTree::Break,
        )
    } else if kind == TokenKind::KwContinue {
        statement_at(
            tokens,
            start,
            advance(tried(st, statement_kinds().take(5))),
            StatementKindTree::Continue,
        )
    } else if kind == TokenKind::KwStruct || kind == TokenKind::KwFn || kind
        == TokenKind::KwTemplate {
        let trials: int = if kind == TokenKind::KwStruct {
            6
        } else if kind == TokenKind::KwFn {
            7
        } else {
            8
        };
        match parse_item(tokens, tried(st, statement_kinds().take(trials))) {
            Err(e) => Err(e),
            Ok((item, st1)) => statement_at(tokens, start, st1, StatementKindTree::Item(item)),
        }
    } else {
        match parse_expression(tokens, tried(st, statement_kinds())) {
            Err(e) => Err(e),
            Ok((expression, st1)) => statement_at(
                tokens,
                start,
                st1,
                StatementKindTree::Expression(expression),
            ),
        }
    }
}

/// The statements of a block behind those that were read, up to its
/// closing bracket. A semicolon has to stand before the next statement
/// where `semi` holds.
pub open spec fn parse_statements(
    tokens: Seq<TokenView>,
    st: ParserState,
    statements: Seq<StatementTree>,
    semi: bool,
) -> Parsed<Seq<StatementTree>>
    decreases tokens.len() - st.pos, 8nat,
{
    let first = tried(st, seq![TokenKind::RCBracket]);
    if peek(tokens, st).kind == TokenKind::RCBracket {
        Ok((statements, advance(first)))
    } else {
        let separated = if semi {
            expect(tokens, first, TokenKind::Semicolon)
        } else {
            Ok((peek(tokens, st), first))
        };
        match separated {
            Err(e) => Err(e),
            Ok((_, st1)) => {
                let second = tried(st1, seq![TokenKind::RCBracket]);
                if peek(tokens, st1).kind == TokenKind::RCBracket {
                    Ok((statements, advance(second)))
                } else {
                    match passed(tokens, st, parse_statement(tokens, second)) {
                        Err(e) => Err(e),
                        Ok((statement, st2)) => parse_statements(
                            tokens,
                            st2,
                            statements.push(statement),
                            requires_semi(statement),
                        ),
                    }
                }
            },
        }
    }
}

/// A block of statements in brackets.
pub open spec fn parse_statement_block(tokens: Seq<TokenView>, st: ParserState) -> Parsed<
    BlockTree,
>
    decreases tokens.len() - st.pos, 0nat,
{
    let start = peek(tokens, st).start;
    if peek(tokens, st).kind == TokenKind::LCBracket {
        match parse_statements(
            tokens,
            advance(tried(st, seq![TokenKind::LCBracket])),
            Seq::empty(),
            false,
        ) {
            Err(e) => Err(e),
            Ok((statements, st1)) => Ok(
                (BlockTree { statements, span: close(tokens, start, st1) }, st1),
            ),
        }
    } else {
        Err(error_unexpected(tokens, tried(st, seq![TokenKind::LCBracket])))
    }
}

/// An item: a function, a structure, or a template of items.
pub open spec fn parse_item(tokens: Seq<TokenView>, st: ParserState) -> Parsed<ItemTree>
    decreases tokens.len() - st.pos, 6nat,
{
    let start = peek(tokens, st).start;
    let kind = peek(tokens, st).kind;
    if kind == TokenKind::KwFn {
        match expect_ident(tokens, advance(tried(st, item_kinds().take(1)))) {
            Err(e) => Err(e),
            Ok((name, st1)) => match expect(tokens, st1, TokenKind::LParen) {
                Err(e) => Err(e),
                Ok((_, st2)) => match parse_pairs(tokens, st2, TokenKind::RParen) {
                    Err(e) => Err(e),
                    Ok((params, st3)) => {
                        let returned = if peek(tokens, st3).kind == TokenKind::Arrow {
                            match parse_type(tokens, advance(tried(st3, seq![TokenKind::Arrow]))) {
                                Err(e) => Err(e),
                                Ok((return_type, st4)) => Ok((Some(return_type), st4)),
                            }
                        } else {
                            Ok((None, tried(st3, seq![TokenKind::Arrow])))
                        };
                        match passed(tokens, st, returned) {
                            Err(e) => Err(e),
                            Ok((return_type, st4)) => match parse_statement_block(tokens, st4) {
                                Err(e) => Err(e),
                                Ok((statement_block, st5)) => Ok(
                                    (
                                        ItemTree::FunctionDef(
                                            FunctionDefTree {
                                                name,
                                                return_type,
                                                params,
                                                statement_block,
                                                span: close(tokens, start, st5),
                                            },
                                        ),
                                        st5,
                                    ),
                                ),
                            },
                        }
                    },
                },
            },
        }
    } else if kind == TokenKind::KwStruct {
        match expect_ident(tokens, advance(tried(st, item_kinds().take(2)))) {
            Err(e) => Err(e),
            Ok((name, st1)) => match expect(tokens, st1, TokenKind::LCBracket) {
                Err(e) => Err(e),
                Ok((_, st2)) => match parse_pairs(tokens, st2, TokenKind::RCBracket) {
                    Err(e) => Err(e),
                    Ok((fields, st3)) => Ok(
                        (
                            ItemTree::StructDef(
                                StructDefTree { name, fields, span: close(tokens, start, st3) },
                            ),
                            st3,
                        ),
                    ),
                },
            },
        }
    } else if kind == TokenKind::KwTemplate {
        match expect(tokens, advance(tried(st, item_kinds())), TokenKind::LABracket) {
            Err(e) => Err(e),
            Ok((_, st1)) => match expect_ident(tokens, st1) {
                Err(e) => Err(e),
                Ok((first, st2)) => match symbols_rest(tokens, st2, TokenKind::Comma, seq![first]) {
                    Err(e) => Err(e),
                    Ok((params, st3)) => match passed(
                        tokens,
                        st,
                        expect(tokens, st3, TokenKind::RABracket),
                    ) {
                        Err(e) => Err(e),
                        Ok((_, st4)) => {
                            let next = tried(st4, seq![TokenKind::LCBracket]);
                            let inside = if peek(tokens, st4).kind == TokenKind::LCBracket {
                                match parse_items(
                                    tokens,
                                    advance(next),
                                    TokenKind::RCBracket,
                                    Seq::empty(),
                                ) {
                                    Err(e) => Err(e),
                                    Ok((items, st5)) => Ok((items, advance(st5))),
                                }
                            } else {
                                match parse_item(tokens, next) {
                                    Err(e) => Err(e),
                                    Ok((item, st5)) => Ok((seq![item], st5)),
                                }
                            };
                            match inside {
                                Err(e) => Err(e),
                                Ok((items, st5)) => Ok(
                                    (
                                        ItemTree::Template(
                                            TemplateTree {
                                                params,
                                                items,
                                                span: close(tokens, start, st5),
                                            },
                                        ),
                                        st5,
                                    ),
                                ),
                            }
                        },
                    },
                },
            },
        }
    } else {
        Err(error_unexpected(tokens, tried(st, item_kinds())))
    }
}

/// The items behind those that were read, up to the token of the kind
/// `closing`, which is not passed.
pub open spec fn parse_items(
    tokens: Seq<TokenView>,
    st: ParserState,
    closing: TokenKind,
    items: Seq<ItemTree>,
) -> Parsed<Seq<ItemTree>>
    decreases tokens.len() - st.pos, 9nat,
{
    let next = tried(st, seq![closing]);
    if peek(tokens, st).kind == closing {
        Ok((items, next))
    } else {
        match passed(tokens, st, parse_item(tokens, next)) {
            Err(e) => Err(e),
            Ok((item, st1)) => parse_items(tokens, st1, closing, items.push(item)),
        }
    }
}

/// A module: items up to the end of the text.
pub open spec fn parse_module(tokens: Seq<TokenView>, st: ParserState) -> Parsed<ModuleTree> {
    match parse_items(tokens, st, TokenKind::EOF, Seq::empty()) {
        Err(e) => Err(e),
        Ok((items, st1)) => Ok(
            (ModuleTree { items, span: close(tokens, peek(tokens, st).start, st1) }, st1),
        ),
    }
}

/// The state in which the parser begins.
pub open spec fn initial_state(names: Map<Seq<char>, u64>, count: nat) -> ParserState {
    ParserState { pos: 0, expected: Seq::empty(), names, count }
}

/// What parsing the text `s` gives with an interner that holds `names`:
/// the module with the names and the count of the interner afterwards, or
/// the first error.
pub open spec fn parse(s: Seq<char>, names: Map<Seq<char>, u64>, count: nat) -> Parsed<
    ModuleTree,
> {
    parse_module(crate::solidlang::lexer::tokens_from(s, 0), initial_state(names, count))
}

} // verus!
