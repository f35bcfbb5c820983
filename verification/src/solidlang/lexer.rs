//! The tokens of a source text.

use crate::ir::assembly::tokens::lemma_utf8_len_add;
use crate::text::{
    char_at, char_width, check_digit, check_letter, check_space, chars_of_str, is_digit,
    is_letter, is_space, peek_char, utf8_len,
};
use vstd::prelude::*;

verus! {

#[derive(Debug, Copy, Clone, PartialEq, Eq, Structural)]
pub enum TokenKind {
    Ident,
    IntegerLiteral,
    BooleanTrue,
    BooleanFalse,
    KwFn,
    KwStruct,
    KwTemplate,
    KwLet,
    KwIf,
    KwElse,
    KwWhile,
    KwFor,
    KwIn,
    KwLoop,
    KwReturn,
    KwBreak,
    KwContinue,
    Semicolon,
    Colon,
    ColonColon,
    Arrow,
    Dot,
    Comma,
    LTurbofish,
    LParen,
    RParen,
    LSBracket,
    RSBracket,
    LCBracket,
    RCBracket,
    LABracket,
    RABracket,
    Assign,
    Plus,
    Minus,
    Mul,
    Div,
    Mod,
    BitAnd,
    BitOr,
    BitNot,
    BitRShift,
    BitLShift,
    BoolAnd,
    BoolOr,
    BoolNot,
    Equal,
    NotEqual,
    GreaterEqual,
    LesserEqual,
    EOF,
    Whitespace,
    Error,
}

/// A token of a text: its kind, the places of its first character and
/// behind its last one, and the offset and the number of its bytes in the
/// UTF-8 form of the text.
#[derive(Debug, Copy, Clone, PartialEq, Eq, Structural)]
pub struct Token {
    pub kind: TokenKind,
    pub first: usize,
    pub end: usize,
    pub start: usize,
    pub len: usize,
}

/// The characters that stand in a row in a token.
#[derive(Debug, Copy, Clone, PartialEq, Eq, Structural)]
pub enum CharClass {
    /// The letters, the digits and the underscore.
    Ident,
    Digit,
    Whitespace,
}

/// Whether `c` can stand in an identifier; at its beginning, where `first`
/// holds.
pub open spec fn is_ident_char(c: char, first: bool) -> bool {
    is_letter(c) || c == '_' || (!first && is_digit(c))
}

pub open spec fn in_class(c: char, class: CharClass) -> bool {
    match class {
        CharClass::Ident => is_ident_char(c, false),
        CharClass::Digit => is_digit(c),
        CharClass::Whitespace => is_space(c),
    }
}

/// The place behind the characters of the class that stand at `pos` in a
/// row.
pub open spec fn class_end(s: Seq<char>, pos: int, class: CharClass) -> int
    decreases s.len() - pos,
{
    if 0 <= pos < s.len() && in_class(s[pos], class) {
        class_end(s, pos + 1, class)
    } else {
        pos
    }
}

/// The kind of the word `text`: that of a keyword, or an identifier.
pub open spec fn word_kind(text: Seq<char>) -> TokenKind {
    if text == "fn"@ {
        TokenKind::KwFn
    } else if text == "struct"@ {
        TokenKind::KwStruct
    } else if text == "template"@ {
        TokenKind::KwTemplate
    } else if text == "let"@ {
        TokenKind::KwLet
    } else if text == "if"@ {
        TokenKind::KwIf
    } else if text == "else"@ {
        TokenKind::KwElse
    } else if text == "while"@ {
        TokenKind::KwWhile
    } else if text == "for"@ {
        TokenKind::KwFor
    } else if text == "in"@ {
        TokenKind::KwIn
    } else if text == "loop"@ {
        TokenKind::KwLoop
    } else if text == "return"@ {
        TokenKind::KwReturn
    } else if text == "break"@ {
        TokenKind::KwBreak
    } else if text == "continue"@ {
        TokenKind::KwContinue
    } else if text == "true"@ {
        TokenKind::BooleanTrue
    } else if text == "false"@ {
        TokenKind::BooleanFalse
    } else {
        TokenKind::Ident
    }
}

/// The sign that begins with `c`, where `d` is the next character: its
/// kind, and whether it takes both characters. The longest sign is taken.
pub open spec fn sign_kind(c: char, d: char) -> Option<(TokenKind, bool)> {
    if c == ';' {
        Some((TokenKind::Semicolon, false))
    } else if c == ':' {
        if d == ':' {
            Some((TokenKind::ColonColon, true))
        } else {
            Some((TokenKind::Colon, false))
        }
    } else if c == '.' {
        Some((TokenKind::Dot, false))
    } else if c == ',' {
        Some((TokenKind::Comma, false))
    } else if c == '(' {
        Some((TokenKind::LParen, false))
    } else if c == ')' {
        Some((TokenKind::RParen, false))
    } else if c == '[' {
        Some((TokenKind::LSBracket, false))
    } else if c == ']' {
        Some((TokenKind::RSBracket, false))
    } else if c == '{' {
        Some((TokenKind::LCBracket, false))
    } else if c == '}' {
        Some((TokenKind::RCBracket, false))
    } else if c == '<' {
        if d == '~' {
            Some((TokenKind::BitLShift, true))
        } else if d == '=' {
            Some((TokenKind::LesserEqual, true))
        } else {
            Some((TokenKind::LABracket, false))
        }
    } else if c == '>' {
        if d == '=' {
            Some((TokenKind::GreaterEqual, true))
        } else {
            Some((TokenKind::RABracket, false))
        }
    } else if c == '=' {
        if d == '=' {
            Some((TokenKind::Equal, true))
        } else {
            Some((TokenKind::Assign, false))
        }
    } else if c == '+' {
        Some((TokenKind::Plus, false))
    } else if c == '-' {
        if d == '>' {
            Some((TokenKind::Arrow, true))
        } else {
            Some((TokenKind::Minus, false))
        }
    } else if c == '*' {
        Some((TokenKind::Mul, false))
    } else if c == '/' {
        Some((TokenKind::Div, false))
    } else if c == '%' {
        Some((TokenKind::Mod, false))
    } else if c == '&' {
        if d == '&' {
            Some((TokenKind::BoolAnd, true))
        } else {
            Some((TokenKind::BitAnd, false))
        }
    } else if c == '|' {
        if d == '|' {
            Some((TokenKind::BoolOr, true))
        } else {
            Some((TokenKind::BitOr, false))
        }
    } else if c == '~' {
        if d == '>' {
            Some((TokenKind::BitRShift, true))
        } else {
            Some((TokenKind::BitNot, false))
        }
    } else if c == '!' {
        if d == '=' {
            Some((TokenKind::NotEqual, true))
        } else {
            Some((TokenKind::BoolNot, false))
        }
    } else {
        None
    }
}

/// The kind of the token that begins at `pos`, and the place behind it.
/// Two colons before `<` are one sign with it. The end of the text is a
/// token without a character, and the NUL character ends the text too.
pub open spec fn first_token(s: Seq<char>, pos: int) -> (TokenKind, int) {
    let c = char_at(s, pos);
    let d = char_at(s, pos + 1);
    match sign_kind(c, d) {
        Some((kind, both)) => if kind == TokenKind::ColonColon && char_at(s, pos + 2) == '<' {
            (TokenKind::LTurbofish, pos + 3)
        } else if both {
            (kind, pos + 2)
        } else {
            (kind, pos + 1)
        },
        None => if is_ident_char(c, true) {
            let end = class_end(s, pos + 1, CharClass::Ident);
            (word_kind(s.subrange(pos, end)), end)
        } else if c == '\0' {
            (
                TokenKind::EOF,
                if 0 <= pos < s.len() {
                    pos + 1
                } else {
                    pos
                },
            )
        } else if is_digit(c) {
            (TokenKind::IntegerLiteral, class_end(s, pos + 1, CharClass::Digit))
        } else if is_space(c) {
            (TokenKind::Whitespace, class_end(s, pos + 1, CharClass::Whitespace))
        } else {
            (TokenKind::Error, pos + 1)
        },
    }
}

/// A token with its text.
pub struct TokenView {
    pub kind: TokenKind,
    pub text: Seq<char>,
    pub start: nat,
    pub len: nat,
}

/// The number of bytes of the characters, or the largest number where that
/// one does not fit.
pub open spec fn byte_count(s: Seq<char>) -> nat {
    if utf8_len(s) <= usize::MAX {
        utf8_len(s)
    } else {
        usize::MAX as nat
    }
}

/// The token that begins at `pos` and ends before `end`.
pub open spec fn token_view(s: Seq<char>, kind: TokenKind, pos: int, end: int) -> TokenView {
    TokenView {
        kind,
        text: s.subrange(pos, end),
        start: byte_count(s.take(pos)),
        len: byte_count(s.subrange(pos, end)),
    }
}

/// The tokens of the text from `pos` on, without the whitespace. The last
/// one is the end of the text.
pub open spec fn tokens_from(s: Seq<char>, pos: int) -> Seq<TokenView>
    decreases s.len() - pos,
{
    let (kind, end) = first_token(s, pos);
    if kind == TokenKind::EOF || !(0 <= pos < end <= s.len()) {
        seq![token_view(s, TokenKind::EOF, pos, end)]
    } else if kind == TokenKind::Whitespace {
        tokens_from(s, end)
    } else {
        seq![token_view(s, kind, pos, end)] + tokens_from(s, end)
    }
}

impl Token {
    /// The token with its text in `s`.
    pub open spec fn view_in(self, s: Seq<char>) -> TokenView {
        TokenView {
            kind: self.kind,
            text: s.subrange(self.first as int, self.end as int),
            start: self.start as nat,
            len: self.len as nat,
        }
    }

    /// The token lies within `s`.
    pub open spec fn within(self, s: Seq<char>) -> bool {
        self.first <= self.end <= s.len()
    }
}

/// The tokens with their texts in `s`.
pub open spec fn tokens_view(tokens: Seq<Token>, s: Seq<char>) -> Seq<TokenView> {
    tokens.map_values(|token: Token| token.view_in(s))
}

/// Whether the tokens are a stream of tokens of `s`: each lies within `s`,
/// the last one, and no other, is the end of the text, and every number
/// consists of digits.
pub open spec fn stream_wf(tokens: Seq<Token>, s: Seq<char>) -> bool {
    &&& 0 < tokens.len() <= s.len() + 1
    &&& forall|i: int| 0 <= i < tokens.len() ==> (#[trigger] tokens[i]).within(s)
    &&& forall|i: int|
        0 <= i < tokens.len() ==> ((#[trigger] tokens[i]).kind == TokenKind::EOF <==> i
            == tokens.len() - 1)
    &&& forall|i: int|
        0 <= i < tokens.len() && (#[trigger] tokens[i]).kind == TokenKind::IntegerLiteral
            ==> forall|j: int| tokens[i].first <= j < tokens[i].end ==> is_digit(s[j])
}

pub proof fn lemma_class_end_bounds(s: Seq<char>, pos: int, class: CharClass)
    requires
        0 <= pos <= s.len(),
    ensures
        pos <= class_end(s, pos, class) <= s.len(),
        forall|i: int| pos <= i < class_end(s, pos, class) ==> in_class(#[trigger] s[i], class),
    decreases s.len() - pos,
{
    if pos < s.len() && in_class(s[pos], class) {
        lemma_class_end_bounds(s, pos + 1, class);
    }
}

/// A token lies within the text, every token but its end has a character,
/// and a number consists of digits.
pub proof fn lemma_first_token_bounds(s: Seq<char>, pos: int)
    requires
        0 <= pos <= s.len(),
    ensures
        pos <= first_token(s, pos).1,
        first_token(s, pos).0 != TokenKind::EOF ==> pos < first_token(s, pos).1 <= s.len(),
        pos < s.len() ==> pos < first_token(s, pos).1 <= s.len(),
        pos == s.len() ==> first_token(s, pos) == (TokenKind::EOF, pos),
        first_token(s, pos).0 == TokenKind::IntegerLiteral ==> forall|i: int|
            pos <= i < first_token(s, pos).1 ==> is_digit(#[trigger] s[i]),
{
    if pos < s.len() {
        lemma_class_end_bounds(s, pos + 1, CharClass::Ident);
        lemma_class_end_bounds(s, pos + 1, CharClass::Digit);
        lemma_class_end_bounds(s, pos + 1, CharClass::Whitespace);
    }
}

fn check_ident_char(c: char, first: bool) -> (r: bool)
    ensures
        r == is_ident_char(c, first),
{
    check_letter(c) || c == '_' || (!first && check_digit(c))
}

fn check_class(c: char, class: CharClass) -> (r: bool)
    ensures
        r == in_class(c, class),
{
    match class {
        CharClass::Ident => check_ident_char(c, false),
        CharClass::Digit => check_digit(c),
        CharClass::Whitespace => check_space(c),
    }
}

/// The place behind the characters of the class that stand at `pos` in a
/// row.
fn scan_class(chars: &Vec<char>, pos: usize, class: CharClass) -> (r: usize)
    requires
        pos <= chars.len(),
    ensures
        r == class_end(chars@, pos as int, class),
        pos <= r <= chars.len(),
{
    let mut i = pos;
    loop
        invariant
            pos <= i <= chars.len(),
            class_end(chars@, pos as int, class) == class_end(chars@, i as int, class),
        decreases chars.len() - i,
    {
        if i >= chars.len() {
            return i;
        }
        if !check_class(chars[i], class) {
            return i;
        }
        i = i + 1;
    }
}

/// Whether the characters from `from` up to `to` are those of `text`.
fn range_is(chars: &Vec<char>, from: usize, to: usize, text: &str) -> (r: bool)
    requires
        from <= to <= chars.len(),
    ensures
        r == (chars@.subrange(from as int, to as int) == text@),
{
    let wanted = chars_of_str(text);
    if to - from != wanted.len() {
        return false;
    }
    let ghost have = chars@.subrange(from as int, to as int);
    let mut i: usize = 0;
    while i < wanted.len()
        invariant
            i <= wanted.len(),
            from <= to <= chars.len(),
            to - from == wanted.len(),
            wanted@ == text@,
            have == chars@.subrange(from as int, to as int),
            forall|j: int| 0 <= j < i ==> have[j] == wanted@[j],
        decreases wanted.len() - i,
    {
        if chars[from + i] != wanted[i] {
            assert(have[i as int] != wanted@[i as int]);
            return false;
        }
        i = i + 1;
    }
    assert(have =~= wanted@);
    true
}

/// The kind of the word from `from` up to `to`.
fn scan_word_kind(chars: &Vec<char>, from: usize, to: usize) -> (r: TokenKind)
    requires
        from <= to <= chars.len(),
    ensures
        r == word_kind(chars@.subrange(from as int, to as int)),
{
    if range_is(chars, from, to, "fn") {
        TokenKind::KwFn
    } else if range_is(chars, from, to, "struct") {
        TokenKind::KwStruct
    } else if range_is(chars, from, to, "template") {
        TokenKind::KwTemplate
    } else if range_is(chars, from, to, "let") {
        TokenKind::KwLet
    } else if range_is(chars, from, to, "if") {
        TokenKind::KwIf
    } else if range_is(chars, from, to, "else") {
        TokenKind::KwElse
    } else if range_is(chars, from, to, "while") {
        TokenKind::KwWhile
    } else if range_is(chars, from, to, "for") {
        TokenKind::KwFor
    } else if range_is(chars, from, to, "in") {
        TokenKind::KwIn
    } else if range_is(chars, from, to, "loop") {
        TokenKind::KwLoop
    } else if range_is(chars, from, to, "return") {
        TokenKind::KwReturn
    } else if range_is(chars, from, to, "break") {
        TokenKind::KwBreak
    } else if range_is(chars, from, to, "continue") {
        TokenKind::KwContinue
    } else if range_is(chars, from, to, "true") {
        TokenKind::BooleanTrue
    } else if range_is(chars, from, to, "false") {
        TokenKind::BooleanFalse
    } else {
        TokenKind::Ident
    }
}

/// The sign that begins with `c`, where `d` is the next character: its
/// kind, and whether it takes both.
fn scan_sign(c: char, d: char) -> (r: Option<(TokenKind, bool)>)
    ensures
        r == sign_kind(c, d),
{
    if c == ';' {
        Some((TokenKind::Semicolon, false))
    } else if c == ':' {
        if d == ':' {
            Some((TokenKind::ColonColon, true))
        } else {
            Some((TokenKind::Colon, false))
        }
    } else if c == '.' {
        Some((TokenKind::Dot, false))
    } else if c == ',' {
        Some((TokenKind::Comma, false))
    } else if c == '(' {
        Some((TokenKind::LParen, false))
    } else if c == ')' {
        Some((TokenKind::RParen, false))
    } else if c == '[' {
        Some((TokenKind::LSBracket, false))
    } else if c == ']' {
        Some((TokenKind::RSBracket, false))
    } else if c == '{' {
        Some((TokenKind::LCBracket, false))
    } else if c == '}' {
        Some((TokenKind::RCBracket, false))
    } else if c == '<' {
        if d == '~' {
            Some((TokenKind::BitLShift, true))
        } else if d == '=' {
            Some((TokenKind::LesserEqual, true))
        } else {
            Some((TokenKind::LABracket, false))
        }
    } else if c == '>' {
        if d == '=' {
            Some((TokenKind::GreaterEqual, true))
        } else {
            Some((TokenKind::RABracket, false))
        }
    } else if c == '=' {
        if d == '=' {
            Some((TokenKind::Equal, true))
        } else {
            Some((TokenKind::Assign, false))
        }
    } else if c == '+' {
        Some((TokenKind::Plus, false))
    } else if c == '-' {
        if d == '>' {
            Some((TokenKind::Arrow, true))
        } else {
            Some((TokenKind::Minus, false))
        }
    } else if c == '*' {
        Some((TokenKind::Mul, false))
    } else if c == '/' {
        Some((TokenKind::Div, false))
    } else if c == '%' {
        Some((TokenKind::Mod, false))
    } else if c == '&' {
        if d == '&' {
            Some((TokenKind::BoolAnd, true))
        } else {
            Some((TokenKind::BitAnd, false))
        }
    } else if c == '|' {
        if d == '|' {
            Some((TokenKind::BoolOr, true))
        } else {
            Some((TokenKind::BitOr, false))
        }
    } else if c == '~' {
        if d == '>' {
            Some((TokenKind::BitRShift, true))
        } else {
            Some((TokenKind::BitNot, false))
        }
    } else if c == '!' {
        if d == '=' {
            Some((TokenKind::NotEqual, true))
        } else {
            Some((TokenKind::BoolNot, false))
        }
    } else {
        None
    }
}

/// The kind of the token that begins at `pos`, and the place behind it.
fn scan_token(chars: &Vec<char>, pos: usize) -> (r: (TokenKind, usize))
    requires
        pos <= chars.len(),
    ensures
        (r.0, r.1 as int) == first_token(chars@, pos as int),
        pos <= r.1 <= chars.len(),
        r.0 != TokenKind::EOF ==> pos < r.1,
{
    proof {
        lemma_first_token_bounds(chars@, pos as int);
    }
    let c = peek_char(chars, pos);
    let d = if pos < chars.len() {
        peek_char(chars, pos + 1)
    } else {
        '\0'
    };
    match scan_sign(c, d) {
        Some((kind, both)) => {
            if kind == TokenKind::ColonColon && pos + 2 < chars.len() && chars[pos + 2] == '<' {
                (TokenKind::LTurbofish, pos + 3)
            } else if both {
                (kind, pos + 2)
            } else {
                (kind, pos + 1)
            }
        },
        None => {
            if check_ident_char(c, true) {
                let end = scan_class(chars, pos + 1, CharClass::Ident);
                (scan_word_kind(chars, pos, end), end)
            } else if c == '\0' {
                if pos < chars.len() {
                    (TokenKind::EOF, pos + 1)
                } else {
                    (TokenKind::EOF, pos)
                }
            } else if check_digit(c) {
                (TokenKind::IntegerLiteral, scan_class(chars, pos + 1, CharClass::Digit))
            } else if check_space(c) {
                (TokenKind::Whitespace, scan_class(chars, pos + 1, CharClass::Whitespace))
            } else {
                (TokenKind::Error, pos + 1)
            }
        },
    }
}

/// The bytes of the characters from `from` up to `to`.
fn measure(chars: &Vec<char>, from: usize, to: usize) -> (r: u128)
    requires
        from <= to <= chars.len(),
    ensures
        r == utf8_len(chars@.subrange(from as int, to as int)),
        r <= 4 * (to - from),
{
    let mut bytes: u128 = 0;
    let mut i = from;
    while i < to
        invariant
            from <= i <= to <= chars.len(),
            bytes == utf8_len(chars@.subrange(from as int, i as int)),
            bytes <= 4 * (i - from),
        decreases to - i,
    {
        proof {
            let next = chars@.subrange(from as int, i + 1);
            assert(next.drop_last() =~= chars@.subrange(from as int, i as int));
            assert(next.last() == chars@[i as int]);
        }
        bytes = bytes + char_width(chars[i]) as u128;
        i = i + 1;
    }
    bytes
}

fn clamp(n: u128) -> (r: usize)
    ensures
        r == if n <= usize::MAX {
            n as nat
        } else {
            usize::MAX as nat
        },
{
    if n <= usize::MAX as u128 {
        n as usize
    } else {
        usize::MAX
    }
}

/// The tokens of the text, without the whitespace. The last one, and no
/// other, is the end of the text.
pub fn token_stream(chars: &Vec<char>) -> (tokens: Vec<Token>)
    ensures
        tokens_view(tokens@, chars@) == tokens_from(chars@, 0),
        stream_wf(tokens@, chars@),
{
    let mut tokens: Vec<Token> = Vec::new();
    let mut pos: usize = 0;
    let mut bytes: u128 = 0;
    proof {
        assert(chars@.take(0) =~= Seq::<char>::empty());
    }
    loop
        invariant
            pos <= chars.len(),
            tokens.len() <= pos,
            bytes == utf8_len(chars@.take(pos as int)),
            bytes <= 4 * pos,
            tokens_view(tokens@, chars@) + tokens_from(chars@, pos as int) == tokens_from(
                chars@,
                0,
            ),
            forall|i: int| 0 <= i < tokens.len() ==> (#[trigger] tokens@[i]).within(chars@),
            forall|i: int| 0 <= i < tokens.len() ==> (#[trigger] tokens@[i]).kind != TokenKind::EOF,
            forall|i: int|
                0 <= i < tokens.len() && (#[trigger] tokens@[i]).kind == TokenKind::IntegerLiteral
                    ==> forall|j: int|
                    tokens@[i].first <= j < tokens@[i].end ==> is_digit(chars@[j]),
        decreases chars.len() - pos,
    {
        let (kind, end) = scan_token(chars, pos);
        let token_bytes = measure(chars, pos, end);
        proof {
            assert(chars@.take(end as int) =~= chars@.take(pos as int) + chars@.subrange(
                pos as int,
                end as int,
            ));
            lemma_utf8_len_add(chars@.take(pos as int), chars@.subrange(pos as int, end as int));
            lemma_first_token_bounds(chars@, pos as int);
        }
        let token = Token { kind, first: pos, end, start: clamp(bytes), len: clamp(token_bytes) };
        if kind == TokenKind::Whitespace {
            bytes = bytes + token_bytes;
            pos = end;
            continue ;
        }
        proof {
            assert(token.view_in(chars@) == token_view(chars@, kind, pos as int, end as int));
            assert(tokens_view(tokens@.push(token), chars@) =~= tokens_view(tokens@, chars@)
                + seq![token.view_in(chars@)]);
        }
        tokens.push(token);
        if kind == TokenKind::EOF {
            return tokens;
        }
        proof {
            let before = tokens_view(tokens@.drop_last(), chars@);
            assert(tokens@.drop_last().push(token) =~= tokens@);
            assert(before + (seq![token.view_in(chars@)] + tokens_from(chars@, end as int)) =~= (
            before + seq![token.view_in(chars@)]) + tokens_from(chars@, end as int));
        }
        bytes = bytes + token_bytes;
        pos = end;
    }
}

/// The tokens of the text, without the whitespace. The last one, and no
/// other, is the end of the text.
pub fn lex(src: &str) -> (tokens: Vec<Token>)
    ensures
        tokens_view(tokens@, src@) == tokens_from(src@, 0),
        stream_wf(tokens@, src@),
{
    let chars = chars_of_str(src);
    token_stream(&chars)
}

} // verus!
