//! What the tokens of a written module are: the pieces that were written.

use crate::ir::assembly::tokens::{
    is_word_char, lex, run_end, skip_trivia, token_at, token_view, IRAssemblyTokenKind, TokenView,
};
use crate::ir::assembly::{
    gap_text, lemma_render_add, lemma_render_one, render, sign_text, Gap, Piece,
};
use crate::text::{char_at, is_decimal, is_digit, is_space};
use vstd::prelude::*;

verus! {

/// Whether the text reads as one word: it consists of word characters, and
/// begins neither with a digit nor with an arrow.
pub open spec fn is_word(text: Seq<char>) -> bool {
    &&& text.len() >= 1
    &&& forall|i: int| 0 <= i < text.len() ==> is_word_char(#[trigger] text[i])
    &&& !is_digit(text[0])
    &&& !(text.len() >= 2 && text[0] == '-' && text[1] == '>')
}

/// Whether the text of a piece reads as a token of its kind.
pub open spec fn piece_valid(piece: Piece) -> bool {
    match piece.kind {
        IRAssemblyTokenKind::Word => is_word(piece.text),
        IRAssemblyTokenKind::Integer => is_decimal(piece.text),
        IRAssemblyTokenKind::Percent
        | IRAssemblyTokenKind::Colon
        | IRAssemblyTokenKind::Arrow
        | IRAssemblyTokenKind::LParen
        | IRAssemblyTokenKind::RParen => piece.text == sign_text(piece.kind),
        _ => false,
    }
}

/// Whether the piece `next` can follow the piece `piece` without the two
/// running into one token: behind a word or a number there is a gap, or a
/// character that is none of a word.
pub open spec fn separated(piece: Piece, next: Piece) -> bool {
    next.gap != Gap::Glue || !(piece.kind == IRAssemblyTokenKind::Word || piece.kind
        == IRAssemblyTokenKind::Integer) || !is_word_char(next.text[0])
}

/// Whether the pieces read as the tokens that they are.
pub open spec fn pieces_ok(pieces: Seq<Piece>) -> bool {
    &&& forall|i: int| 0 <= i < pieces.len() ==> piece_valid(#[trigger] pieces[i])
    &&& forall|i: int|
        0 <= i < pieces.len() - 1 ==> separated(#[trigger] pieces[i], pieces[i + 1])
}

/// Whether the tokens are those of the pieces, in their order, and behind
/// them the end of the text.
pub open spec fn same_tokens(tokens: Seq<TokenView>, pieces: Seq<Piece>) -> bool {
    &&& tokens.len() == pieces.len() + 1
    &&& tokens[pieces.len() as int].kind == IRAssemblyTokenKind::Eof
    &&& forall|i: int|
        0 <= i < pieces.len() ==> (#[trigger] tokens[i]).kind == pieces[i].kind && tokens[i].text
            == pieces[i].text
}

/// The first character of a piece that reads as a token belongs to a
/// token: it is no whitespace, begins no comment and does not end the text.
proof fn lemma_first_char(piece: Piece)
    requires
        piece_valid(piece),
    ensures
        piece.text.len() >= 1,
        !is_space(piece.text[0]),
        piece.text[0] != ';',
        piece.text[0] != '\0',
{
    if piece.kind == IRAssemblyTokenKind::Integer {
        assert(is_digit(piece.text[0]));
    } else if piece.kind == IRAssemblyTokenKind::Word {
        assert(is_word_char(piece.text[0]));
    }
}

/// A gap is skipped up to the token behind it.
proof fn lemma_skip_gap(s: Seq<char>, pos: int, gap: Gap)
    requires
        0 <= pos,
        pos + gap_text(gap).len() < s.len(),
        s.subrange(pos, pos + gap_text(gap).len()) == gap_text(gap),
        !is_space(s[pos + gap_text(gap).len()]),
        s[pos + gap_text(gap).len()] != ';',
    ensures
        skip_trivia(s, pos, false) == pos + gap_text(gap).len(),
{
    reveal_with_fuel(skip_trivia, 7);
    let g = gap_text(gap);
    assert forall|k: int| 0 <= k < g.len() implies s[pos + k] == g[k] by {
        assert(s.subrange(pos, pos + g.len())[k] == s[pos + k]);
    }
    if g.len() >= 1 {
        assert(s[pos] == g[0]);
    }
    if g.len() >= 2 {
        assert(s[pos + 1] == g[1]);
    }
    if g.len() >= 5 {
        assert(s[pos + 2] == g[2]);
        assert(s[pos + 3] == g[3]);
        assert(s[pos + 4] == g[4]);
    }
}

/// A run of digits, or of word characters, ends where the first other
/// character stands.
proof fn lemma_run(s: Seq<char>, pos: int, len: nat, digits: bool)
    requires
        0 <= pos,
        pos + len <= s.len(),
        forall|i: int|
            pos <= i < pos + len ==> if digits {
                is_digit(#[trigger] s[i])
            } else {
                is_word_char(s[i])
            },
        pos + len < s.len() ==> !(if digits {
            is_digit(s[pos + len])
        } else {
            is_word_char(s[pos + len])
        }),
    ensures
        run_end(s, pos, digits) == pos + len,
    decreases len,
{
    if len > 0 {
        lemma_run(s, pos + 1, (len - 1) as nat, digits);
    }
}

/// The token that a piece is read as.
proof fn lemma_token(s: Seq<char>, pos: int, piece: Piece)
    requires
        0 <= pos,
        pos + piece.text.len() <= s.len(),
        piece_valid(piece),
        s.subrange(pos, pos + piece.text.len()) == piece.text,
        (piece.kind == IRAssemblyTokenKind::Word || piece.kind == IRAssemblyTokenKind::Integer)
            && pos + piece.text.len() < s.len() ==> !is_word_char(s[pos + piece.text.len()]),
    ensures
        token_at(s, pos) == (piece.kind, pos + piece.text.len()),
{
    let t = piece.text;
    lemma_first_char(piece);
    assert forall|k: int| 0 <= k < t.len() implies s[pos + k] == t[k] by {
        assert(s.subrange(pos, pos + t.len())[k] == s[pos + k]);
    }
    assert(s[pos] == t[0]);
    assert(char_at(s, pos) == t[0]);
    match piece.kind {
        IRAssemblyTokenKind::Word => {
            assert(is_word_char(t[0]));
            assert forall|i: int| pos + 1 <= i < pos + t.len() implies is_word_char(
                #[trigger] s[i],
            ) by {
                assert(s[i] == t[i - pos]);
            }
            lemma_run(s, pos + 1, (t.len() - 1) as nat, false);
            if t.len() >= 2 {
                assert(s[pos + 1] == t[1]);
            } else if pos + 1 < s.len() {
                assert(!is_word_char(s[pos + 1]));
            }
        },
        IRAssemblyTokenKind::Integer => {
            assert forall|i: int| pos + 1 <= i < pos + t.len() implies is_digit(
                #[trigger] s[i],
            ) by {
                assert(s[i] == t[i - pos]);
            }
            lemma_run(s, pos + 1, (t.len() - 1) as nat, true);
        },
        IRAssemblyTokenKind::Arrow => {
            assert(s[pos + 1] == t[1]);
        },
        _ => {},
    }
}

/// The text of the pieces is that of the first of them and that of the
/// others behind it.
proof fn lemma_render_skip(pieces: Seq<Piece>, i: int)
    requires
        0 <= i < pieces.len(),
    ensures
        render(pieces) == render(pieces.take(i)) + (gap_text(pieces[i].gap) + pieces[i].text
            + render(pieces.skip(i + 1))),
        render(pieces.take(i + 1)) == render(pieces.take(i)) + gap_text(pieces[i].gap)
            + pieces[i].text,
{
    let one = seq![pieces[i]];
    assert(pieces =~= pieces.take(i) + (one + pieces.skip(i + 1)));
    lemma_render_add(pieces.take(i), one + pieces.skip(i + 1));
    lemma_render_add(one, pieces.skip(i + 1));
    lemma_render_one(pieces[i]);
    assert(pieces.take(i + 1).drop_last() =~= pieces.take(i));
}

/// The first character of the text of pieces that read as tokens is the
/// first of the gap before the first piece, or the first of that piece where
/// it has no gap.
proof fn lemma_render_first(pieces: Seq<Piece>)
    requires
        pieces.len() > 0,
        piece_valid(pieces[0]),
    ensures
        render(pieces).len() > 0,
        render(pieces)[0] == if pieces[0].gap == Gap::Glue {
            pieces[0].text[0]
        } else {
            gap_text(pieces[0].gap)[0]
        },
{
    lemma_render_skip(pieces, 0);
    lemma_first_char(pieces[0]);
    assert(render(pieces.take(0)) =~= Seq::<char>::empty());
    let head = gap_text(pieces[0].gap) + pieces[0].text;
    assert(render(pieces) =~= head + render(pieces.skip(1)));
    assert(render(pieces)[0] == head[0]);
}

/// Where the piece `i` lies in the text of the pieces, and what stands
/// behind it.
proof fn lemma_piece_place(pieces: Seq<Piece>, i: int)
    requires
        pieces_ok(pieces),
        0 <= i < pieces.len(),
    ensures
        ({
            let s = render(pieces);
            let pos = render(pieces.take(i)).len() as int;
            let first = pos + gap_text(pieces[i].gap).len();
            let end = first + pieces[i].text.len();
            &&& end <= s.len()
            &&& end == render(pieces.take(i + 1)).len()
            &&& s.subrange(pos, first) == gap_text(pieces[i].gap)
            &&& s.subrange(first, end) == pieces[i].text
            &&& (pieces[i].kind == IRAssemblyTokenKind::Word || pieces[i].kind
                == IRAssemblyTokenKind::Integer) && end < s.len() ==> !is_word_char(s[end])
        }),
{
    let s = render(pieces);
    let pos = render(pieces.take(i)).len() as int;
    let piece = pieces[i];
    let g = gap_text(piece.gap);
    let t = piece.text;
    let rest = render(pieces.skip(i + 1));
    lemma_render_skip(pieces, i);
    let head = render(pieces.take(i));
    assert(s == head + (g + t + rest));
    let first = pos + g.len();
    let end = first + t.len();
    assert(s.subrange(pos, first) =~= g);
    assert(s.subrange(first, end) =~= t);
    if end < s.len() {
        assert(i + 1 < pieces.len()) by {
            if i + 1 == pieces.len() {
                assert(pieces.skip(i + 1) =~= Seq::<Piece>::empty());
                assert(rest =~= Seq::<char>::empty());
            }
        }
        let next = pieces[i + 1];
        assert(pieces.skip(i + 1)[0] == next);
        lemma_render_first(pieces.skip(i + 1));
        assert(s[end] == rest[0]);
        assert(separated(piece, next));
        if next.gap != Gap::Glue {
            assert(!is_word_char(gap_text(next.gap)[0]));
        }
    }
}

/// The tokens from behind the first `i` pieces on are the piece `i` and
/// the tokens from behind it on.
proof fn lemma_lex_step(pieces: Seq<Piece>, i: int)
    requires
        pieces_ok(pieces),
        0 <= i < pieces.len(),
    ensures
        ({
            let s = render(pieces);
            let pos = render(pieces.take(i)).len() as int;
            let end = render(pieces.take(i + 1)).len() as int;
            &&& lex(s, pos).len() == lex(s, end).len() + 1
            &&& lex(s, pos)[0].kind == pieces[i].kind
            &&& lex(s, pos)[0].text == pieces[i].text
            &&& forall|k: int| 0 <= k < lex(s, end).len() ==> lex(s, pos)[k + 1] == lex(s, end)[k]
        }),
{
    let s = render(pieces);
    let pos = render(pieces.take(i)).len() as int;
    let piece = pieces[i];
    let first = pos + gap_text(piece.gap).len();
    let end = first + piece.text.len();
    lemma_piece_place(pieces, i);
    lemma_first_char(piece);
    assert(s[first] == piece.text[0]) by {
        assert(s.subrange(first, end)[0] == s[first]);
    }
    lemma_skip_gap(s, pos, piece.gap);
    lemma_token(s, first, piece);
    let token = token_view(s, piece.kind, first, end);
    assert(lex(s, pos) == seq![token] + lex(s, end));
}

/// From behind the first `i` pieces on, the tokens of the text of the
/// pieces are the other pieces.
proof fn lemma_lex_from(pieces: Seq<Piece>, i: int)
    requires
        pieces_ok(pieces),
        0 <= i <= pieces.len(),
    ensures
        same_tokens(lex(render(pieces), render(pieces.take(i)).len() as int), pieces.skip(i)),
    decreases pieces.len() - i,
{
    let s = render(pieces);
    let pos = render(pieces.take(i)).len() as int;
    if i == pieces.len() {
        assert(pieces.take(i) =~= pieces);
        assert(pos == s.len());
        assert(skip_trivia(s, pos, false) == pos);
        assert(char_at(s, pos) == '\0');
        assert(token_at(s, pos).0 == IRAssemblyTokenKind::Eof);
        assert(lex(s, pos).len() == 1);
        assert(pieces.skip(i) =~= Seq::<Piece>::empty());
    } else {
        lemma_lex_step(pieces, i);
        lemma_lex_from(pieces, i + 1);
        let end = render(pieces.take(i + 1)).len() as int;
        let here = pieces.skip(i);
        let there = pieces.skip(i + 1);
        let tokens = lex(s, pos);
        let later = lex(s, end);
        assert(here.len() == there.len() + 1);
        assert(here[0] == pieces[i]);
        assert forall|k: int| 0 <= k < here.len() implies (#[trigger] tokens[k]).kind
            == here[k].kind && tokens[k].text == here[k].text by {
            if k > 0 {
                assert(tokens[(k - 1) + 1] == later[k - 1]);
                assert(here[k] == there[k - 1]);
            }
        }
        assert(tokens[there.len() as int + 1] == later[there.len() as int]);
    }
}

/// The tokens of the text of pieces that read as tokens are the pieces.
pub proof fn lemma_lex_render(pieces: Seq<Piece>)
    requires
        pieces_ok(pieces),
    ensures
        same_tokens(lex(render(pieces), 0), pieces),
{
    lemma_lex_from(pieces, 0);
    assert(render(pieces.take(0)) =~= Seq::<char>::empty());
    assert(pieces.skip(0) =~= pieces);
}

} // verus!
