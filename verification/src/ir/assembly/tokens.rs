//! The tokens of the textual format of the intermediate representation.

use crate::text::{
    char_at, char_width, check_digit, check_letter, check_space, count_lines, is_digit, is_letter,
    is_space, peek_char, utf8_len,
};
use vstd::prelude::*;

verus! {

#[derive(Debug, Clone, Copy, PartialEq, Eq, Structural)]
pub enum IRAssemblyTokenKind {
    Word,
    Integer,
    Percent,
    Colon,
    Arrow,
    LParen,
    RParen,
    /// Digits that run into a word.
    UnexpectedCharacter,
    Eof,
}

/// A token of a text: its kind, the places of its first character and
/// behind its last one, the offset of its first byte in the UTF-8 form of
/// the text, and the number of line feeds before it.
#[derive(Debug, Clone, Copy, PartialEq, Eq, Structural)]
pub struct IRAssemblyToken {
    pub kind: IRAssemblyTokenKind,
    pub first: usize,
    pub end: usize,
    pub start: usize,
    pub line: usize,
}

/// Whether `c` can stand in a word: a letter, a digit, an underscore or one
/// of the operator characters.
pub open spec fn is_word_char(c: char) -> bool {
    is_letter(c) || is_digit(c) || c == '_' || c == '+' || c == '-' || c == '*' || c == '/' || c
        == '=' || c == '!' || c == '<' || c == '>' || c == '&' || c == '|'
}

/// The place of the first character at or behind `pos` that belongs to a
/// token. Whitespace is skipped, and so is every comment: a semicolon and
/// what follows it up to the end of the line.
pub open spec fn skip_trivia(s: Seq<char>, pos: int, in_comment: bool) -> int
    decreases s.len() - pos,
{
    if pos < 0 || pos >= s.len() {
        pos
    } else if in_comment {
        skip_trivia(s, pos + 1, !(s[pos] == '\n' || s[pos] == '\0'))
    } else if is_space(s[pos]) {
        skip_trivia(s, pos + 1, false)
    } else if s[pos] == ';' {
        skip_trivia(s, pos + 1, true)
    } else {
        pos
    }
}

/// The place behind the digits, or behind the word characters, that stand
/// at `pos` in a row.
pub open spec fn run_end(s: Seq<char>, pos: int, digits: bool) -> int
    decreases s.len() - pos,
{
    if 0 <= pos < s.len() && (if digits {
        is_digit(s[pos])
    } else {
        is_word_char(s[pos])
    }) {
        run_end(s, pos + 1, digits)
    } else {
        pos
    }
}

/// The kind of the token that begins at `pos`, and the place behind it.
/// The NUL character ends the text like its end does.
pub open spec fn token_at(s: Seq<char>, pos: int) -> (IRAssemblyTokenKind, int) {
    let c = char_at(s, pos);
    if c == '\0' {
        (IRAssemblyTokenKind::Eof, pos)
    } else if c == '%' {
        (IRAssemblyTokenKind::Percent, pos + 1)
    } else if c == ':' {
        (IRAssemblyTokenKind::Colon, pos + 1)
    } else if c == '-' && char_at(s, pos + 1) == '>' {
        (IRAssemblyTokenKind::Arrow, pos + 2)
    } else if c == '(' {
        (IRAssemblyTokenKind::LParen, pos + 1)
    } else if c == ')' {
        (IRAssemblyTokenKind::RParen, pos + 1)
    } else if is_digit(c) {
        let end = run_end(s, pos + 1, true);
        if is_word_char(char_at(s, end)) {
            (IRAssemblyTokenKind::UnexpectedCharacter, end)
        } else {
            (IRAssemblyTokenKind::Integer, end)
        }
    } else {
        (IRAssemblyTokenKind::Word, run_end(s, pos + 1, false))
    }
}

/// A token with its text.
pub struct TokenView {
    pub kind: IRAssemblyTokenKind,
    pub text: Seq<char>,
    pub start: nat,
    pub line: nat,
}

/// The offset that is recorded for a token whose first character is at
/// `pos`: the number of bytes before it, or the largest number where that
/// one does not fit.
pub open spec fn byte_offset(s: Seq<char>, pos: int) -> nat {
    if utf8_len(s.take(pos)) <= usize::MAX {
        utf8_len(s.take(pos))
    } else {
        usize::MAX as nat
    }
}

/// The token that begins at `pos` and ends before `end`.
pub open spec fn token_view(s: Seq<char>, kind: IRAssemblyTokenKind, pos: int, end: int)
    -> TokenView {
    TokenView {
        kind,
        text: s.subrange(pos, end),
        start: byte_offset(s, pos),
        line: count_lines(s.take(pos)),
    }
}

/// The tokens of the text from `pos` on. The last one is the end of the
/// text.
pub open spec fn lex(s: Seq<char>, pos: int) -> Seq<TokenView>
    decreases s.len() - pos,
{
    let first = skip_trivia(s, pos, false);
    let (kind, end) = token_at(s, first);
    let token = token_view(s, kind, first, end);
    if kind == IRAssemblyTokenKind::Eof || !(pos < end <= s.len()) {
        seq![token]
    } else {
        seq![token] + lex(s, end)
    }
}

impl IRAssemblyToken {
    /// The token with its text in `s`.
    pub open spec fn view_in(self, s: Seq<char>) -> TokenView {
        TokenView {
            kind: self.kind,
            text: s.subrange(self.first as int, self.end as int),
            start: self.start as nat,
            line: self.line as nat,
        }
    }

    /// The token lies within `s`.
    pub open spec fn within(self, s: Seq<char>) -> bool {
        self.first <= self.end <= s.len()
    }
}

/// The tokens with their texts in `s`.
pub open spec fn tokens_view(tokens: Seq<IRAssemblyToken>, s: Seq<char>) -> Seq<TokenView> {
    tokens.map_values(|token: IRAssemblyToken| token.view_in(s))
}

pub proof fn lemma_skip_trivia_bounds(s: Seq<char>, pos: int, in_comment: bool)
    requires
        0 <= pos <= s.len(),
    ensures
        pos <= skip_trivia(s, pos, in_comment) <= s.len(),
    decreases s.len() - pos,
{
    if pos < s.len() {
        if in_comment {
            lemma_skip_trivia_bounds(s, pos + 1, !(s[pos] == '\n' || s[pos] == '\0'));
        } else if is_space(s[pos]) {
            lemma_skip_trivia_bounds(s, pos + 1, false);
        } else if s[pos] == ';' {
            lemma_skip_trivia_bounds(s, pos + 1, true);
        }
    }
}

pub proof fn lemma_run_end_bounds(s: Seq<char>, pos: int, digits: bool)
    requires
        0 <= pos <= s.len(),
    ensures
        pos <= run_end(s, pos, digits) <= s.len(),
        forall|i: int|
            pos <= i < run_end(s, pos, digits) ==> if digits {
                is_digit(#[trigger] s[i])
            } else {
                is_word_char(s[i])
            },
    decreases s.len() - pos,
{
    if pos < s.len() {
        lemma_run_end_bounds(s, pos + 1, digits);
    }
}

/// A token lies within the text, and every token but the end of the text
/// has a character.
pub proof fn lemma_token_at_bounds(s: Seq<char>, pos: int)
    requires
        0 <= pos <= s.len(),
    ensures
        pos <= token_at(s, pos).1 <= s.len(),
        token_at(s, pos).0 != IRAssemblyTokenKind::Eof ==> pos < token_at(s, pos).1,
        token_at(s, pos).0 == IRAssemblyTokenKind::Integer ==> forall|i: int|
            pos <= i < token_at(s, pos).1 ==> is_digit(#[trigger] s[i]),
{
    if pos < s.len() {
        lemma_run_end_bounds(s, pos + 1, true);
        lemma_run_end_bounds(s, pos + 1, false);
    }
}

pub proof fn lemma_utf8_len_add(a: Seq<char>, b: Seq<char>)
    ensures
        utf8_len(a + b) == utf8_len(a) + utf8_len(b),
    decreases b.len(),
{
    if b.len() == 0 {
        assert(a + b =~= a);
    } else {
        assert((a + b).drop_last() =~= a + b.drop_last());
        lemma_utf8_len_add(a, b.drop_last());
    }
}

pub proof fn lemma_count_lines_add(a: Seq<char>, b: Seq<char>)
    ensures
        count_lines(a + b) == count_lines(a) + count_lines(b),
    decreases b.len(),
{
    if b.len() == 0 {
        assert(a + b =~= a);
    } else {
        assert((a + b).drop_last() =~= a + b.drop_last());
        lemma_count_lines_add(a, b.drop_last());
    }
}

pub fn check_word_char(c: char) -> (r: bool)
    ensures
        r == is_word_char(c),
{
    check_letter(c) || check_digit(c) || c == '_' || c == '+' || c == '-' || c == '*' || c == '/'
        || c == '=' || c == '!' || c == '<' || c == '>' || c == '&' || c == '|'
}

/// The place of the first character at or behind `pos` that belongs to a
/// token.
fn skip_to_token(chars: &Vec<char>, pos: usize) -> (r: usize)
    requires
        pos <= chars.len(),
    ensures
        r == skip_trivia(chars@, pos as int, false),
        pos <= r <= chars.len(),
{
    let mut i = pos;
    let mut in_comment = false;
    loop
        invariant
            pos <= i <= chars.len(),
            skip_trivia(chars@, pos as int, false) == skip_trivia(chars@, i as int, in_comment),
        decreases chars.len() - i,
    {
        if i >= chars.len() {
            return i;
        }
        let c = chars[i];
        if in_comment {
            in_comment = !(c == '\n' || c == '\0');
        } else if check_space(c) {
        } else if c == ';' {
            in_comment = true;
        } else {
            return i;
        }
        i = i + 1;
    }
}

/// The place behind the digits, or the word characters, that stand at
/// `pos` in a row.
fn scan_run(chars: &Vec<char>, pos: usize, digits: bool) -> (r: usize)
    requires
        pos <= chars.len(),
    ensures
        r == run_end(chars@, pos as int, digits),
        pos <= r <= chars.len(),
{
    let mut i = pos;
    loop
        invariant
            pos <= i <= chars.len(),
            run_end(chars@, pos as int, digits) == run_end(chars@, i as int, digits),
        decreases chars.len() - i,
    {
        if i >= chars.len() {
            return i;
        }
        let in_run = if digits {
            check_digit(chars[i])
        } else {
            check_word_char(chars[i])
        };
        if !in_run {
            return i;
        }
        i = i + 1;
    }
}

/// The kind of the token that begins at `pos`, and the place behind it.
fn scan_token(chars: &Vec<char>, pos: usize) -> (r: (IRAssemblyTokenKind, usize))
    requires
        pos <= chars.len(),
    ensures
        (r.0, r.1 as int) == token_at(chars@, pos as int),
        pos <= r.1 <= chars.len(),
        r.0 != IRAssemblyTokenKind::Eof ==> pos < r.1,
{
    proof {
        lemma_token_at_bounds(chars@, pos as int);
    }
    let c = peek_char(chars, pos);
    if c == '\0' {
        (IRAssemblyTokenKind::Eof, pos)
    } else if c == '%' {
        (IRAssemblyTokenKind::Percent, pos + 1)
    } else if c == ':' {
        (IRAssemblyTokenKind::Colon, pos + 1)
    } else if c == '-' && pos + 1 < chars.len() && chars[pos + 1] == '>' {
        (IRAssemblyTokenKind::Arrow, pos + 2)
    } else if c == '(' {
        (IRAssemblyTokenKind::LParen, pos + 1)
    } else if c == ')' {
        (IRAssemblyTokenKind::RParen, pos + 1)
    } else if check_digit(c) {
        let end = scan_run(chars, pos + 1, true);
        if check_word_char(peek_char(chars, end)) {
            (IRAssemblyTokenKind::UnexpectedCharacter, end)
        } else {
            (IRAssemblyTokenKind::Integer, end)
        }
    } else {
        (IRAssemblyTokenKind::Word, scan_run(chars, pos + 1, false))
    }
}

/// The bytes and the line feeds of the characters from `from` up to `to`.
fn measure(chars: &Vec<char>, from: usize, to: usize) -> (r: (u128, usize))
    requires
        from <= to <= chars.len(),
    ensures
        r.0 == utf8_len(chars@.subrange(from as int, to as int)),
        r.1 == count_lines(chars@.subrange(from as int, to as int)),
        r.0 <= 4 * (to - from),
        r.1 <= to - from,
{
    let mut bytes: u128 = 0;
    let mut lines: usize = 0;
    let mut i = from;
    while i < to
        invariant
            from <= i <= to <= chars.len(),
            bytes == utf8_len(chars@.subrange(from as int, i as int)),
            lines == count_lines(chars@.subrange(from as int, i as int)),
            bytes <= 4 * (i - from),
            lines <= i - from,
        decreases to - i,
    {
        proof {
            let next = chars@.subrange(from as int, i + 1);
            assert(next.drop_last() =~= chars@.subrange(from as int, i as int));
            assert(next.last() == chars@[i as int]);
        }
        bytes = bytes + char_width(chars[i]) as u128;
        if chars[i] == '\n' {
            lines = lines + 1;
        }
        i = i + 1;
    }
    (bytes, lines)
}

/// The tokens of the text. The last one, and no other, is the end of the
/// text.
pub fn assembly_token_stream(chars: &Vec<char>) -> (tokens: Vec<IRAssemblyToken>)
    ensures
        tokens_view(tokens@, chars@) == lex(chars@, 0),
        tokens.len() > 0,
        tokens.len() <= chars.len() + 1,
        forall|i: int| 0 <= i < tokens.len() ==> (#[trigger] tokens@[i]).within(chars@),
        forall|i: int|
            0 <= i < tokens.len() ==> ((#[trigger] tokens@[i]).kind == IRAssemblyTokenKind::Eof
                <==> i == tokens.len() - 1),
        forall|i: int|
            0 <= i < tokens.len() && (#[trigger] tokens@[i]).kind == IRAssemblyTokenKind::Integer
                ==> forall|j: int| tokens@[i].first <= j < tokens@[i].end ==> is_digit(chars@[j]),
{
    let mut tokens: Vec<IRAssemblyToken> = Vec::new();
    let mut pos: usize = 0;
    let mut bytes: u128 = 0;
    let mut lines: usize = 0;
    proof {
        assert(chars@.take(0) =~= Seq::<char>::empty());
    }
    loop
        invariant
            pos <= chars.len(),
            tokens.len() <= pos,
            bytes == utf8_len(chars@.take(pos as int)),
            bytes <= 4 * pos,
            lines == count_lines(chars@.take(pos as int)),
            lines <= pos,
            tokens_view(tokens@, chars@) + lex(chars@, pos as int) == lex(chars@, 0),
            forall|i: int| 0 <= i < tokens.len() ==> (#[trigger] tokens@[i]).within(chars@),
            forall|i: int|
                0 <= i < tokens.len() ==> (#[trigger] tokens@[i]).kind
                    != IRAssemblyTokenKind::Eof,
            forall|i: int|
                0 <= i < tokens.len() && (#[trigger] tokens@[i]).kind
                    == IRAssemblyTokenKind::Integer ==> forall|j: int|
                    tokens@[i].first <= j < tokens@[i].end ==> is_digit(chars@[j]),
        decreases chars.len() - pos,
    {
        let first = skip_to_token(chars, pos);
        let (skipped_bytes, skipped_lines) = measure(chars, pos, first);
        let (kind, end) = scan_token(chars, first);
        let (token_bytes, token_lines) = measure(chars, first, end);
        proof {
            assert(chars@.take(first as int) =~= chars@.take(pos as int) + chars@.subrange(
                pos as int,
                first as int,
            ));
            lemma_utf8_len_add(chars@.take(pos as int), chars@.subrange(pos as int, first as int));
            lemma_count_lines_add(
                chars@.take(pos as int),
                chars@.subrange(pos as int, first as int),
            );
            assert(chars@.take(end as int) =~= chars@.take(first as int) + chars@.subrange(
                first as int,
                end as int,
            ));
            lemma_utf8_len_add(
                chars@.take(first as int),
                chars@.subrange(first as int, end as int),
            );
            lemma_count_lines_add(
                chars@.take(first as int),
                chars@.subrange(first as int, end as int),
            );
            lemma_token_at_bounds(chars@, first as int);
        }
        let offset = bytes + skipped_bytes;
        let token = IRAssemblyToken {
            kind,
            first,
            end,
            start: if offset <= usize::MAX as u128 {
                offset as usize
            } else {
                usize::MAX
            },
            line: lines + skipped_lines,
        };
        proof {
            assert(token.view_in(chars@) == token_view(chars@, kind, first as int, end as int));
            assert(tokens_view(tokens@.push(token), chars@) =~= tokens_view(tokens@, chars@)
                + seq![token.view_in(chars@)]);
        }
        tokens.push(token);
        if kind == IRAssemblyTokenKind::Eof {
            return tokens;
        }
        proof {
            let before = tokens_view(tokens@.drop_last(), chars@);
            assert(tokens@.drop_last().push(token) =~= tokens@);
            assert(before + (seq![token.view_in(chars@)] + lex(chars@, end as int)) =~= (before
                + seq![token.view_in(chars@)]) + lex(chars@, end as int));
        }
        bytes = offset + token_bytes;
        lines = lines + skipped_lines + token_lines;
        pos = end;
    }
}

} // verus!
