//! The words of the textual format: that they are words, and that no two
//! of them are the same.

use crate::ir::assembly::grammar::{binary_operators, comp_keywords, unary_operators};
use crate::ir::assembly::lexing::is_word;
use crate::ir::assembly::tokens::is_word_char;
use crate::ir::assembly::{binary_operator_text, unary_operator_text};
use crate::ir::comp::{IRCompBinaryOperationKind, IRCompUnaryOperationKind};
use crate::text::is_digit;
use vstd::prelude::*;

verus! {

/// A text of at most twelve word characters that begins neither with a
/// digit nor with an arrow is a word.
proof fn lemma_short_word(s: Seq<char>)
    requires
        1 <= s.len() <= 12,
        0 < s.len() ==> is_word_char(s[0]),
        1 < s.len() ==> is_word_char(s[1]),
        2 < s.len() ==> is_word_char(s[2]),
        3 < s.len() ==> is_word_char(s[3]),
        4 < s.len() ==> is_word_char(s[4]),
        5 < s.len() ==> is_word_char(s[5]),
        6 < s.len() ==> is_word_char(s[6]),
        7 < s.len() ==> is_word_char(s[7]),
        8 < s.len() ==> is_word_char(s[8]),
        9 < s.len() ==> is_word_char(s[9]),
        10 < s.len() ==> is_word_char(s[10]),
        11 < s.len() ==> is_word_char(s[11]),
        !is_digit(s[0]),
        !(s.len() >= 2 && s[0] == '-' && s[1] == '>'),
    ensures
        is_word(s),
{
    assert forall|i: int| 0 <= i < s.len() implies is_word_char(#[trigger] s[i]) by {
        assert(i == 0 || i == 1 || i == 2 || i == 3 || i == 4 || i == 5 || i == 6 || i == 7 || i
            == 8 || i == 9 || i == 10 || i == 11);
    }
}

/// The words of the textual format are words.
pub proof fn lemma_keywords_are_words()
    ensures
        is_word("call"@),
        is_word("binop"@),
        is_word("unop"@),
        is_word("const"@),
        is_word("alloc"@),
        is_word("store"@),
        is_word("load"@),
        is_word("offsetstore"@),
        is_word("offsetload"@),
        is_word("return"@),
        is_word("if"@),
        is_word("jmp"@),
        is_word("+"@),
        is_word("-"@),
        is_word("*"@),
        is_word("/"@),
        is_word("mod"@),
        is_word("&"@),
        is_word("|"@),
        is_word("<<"@),
        is_word(">>"@),
        is_word("=="@),
        is_word("!="@),
        is_word("<"@),
        is_word(">"@),
        is_word("<="@),
        is_word(">="@),
        is_word("not"@),
        is_word("neg"@),
        is_word("bitnot"@),
        is_word("fn"@),
        is_word("endfn"@),
        is_word("="@),
{
    reveal_strlit("call");
    reveal_strlit("binop");
    reveal_strlit("unop");
    reveal_strlit("const");
    reveal_strlit("alloc");
    reveal_strlit("store");
    reveal_strlit("load");
    reveal_strlit("offsetstore");
    reveal_strlit("offsetload");
    reveal_strlit("return");
    reveal_strlit("if");
    reveal_strlit("jmp");
    reveal_strlit("+");
    reveal_strlit("-");
    reveal_strlit("*");
    reveal_strlit("/");
    reveal_strlit("mod");
    reveal_strlit("&");
    reveal_strlit("|");
    reveal_strlit("<<");
    reveal_strlit(">>");
    reveal_strlit("==");
    reveal_strlit("!=");
    reveal_strlit("<");
    reveal_strlit(">");
    reveal_strlit("<=");
    reveal_strlit(">=");
    reveal_strlit("not");
    reveal_strlit("neg");
    reveal_strlit("bitnot");
    reveal_strlit("fn");
    reveal_strlit("endfn");
    reveal_strlit("=");
    assert("call"@.len() == 4);
    assert("call"@[0] == 'c');
    assert("call"@[1] == 'a');
    assert("call"@[2] == 'l');
    assert("call"@[3] == 'l');
    lemma_short_word("call"@);
    assert("binop"@.len() == 5);
    assert("binop"@[0] == 'b');
    assert("binop"@[1] == 'i');
    assert("binop"@[2] == 'n');
    assert("binop"@[3] == 'o');
    assert("binop"@[4] == 'p');
    lemma_short_word("binop"@);
    assert("unop"@.len() == 4);
    assert("unop"@[0] == 'u');
    assert("unop"@[1] == 'n');
    assert("unop"@[2] == 'o');
    assert("unop"@[3] == 'p');
    lemma_short_word("unop"@);
    assert("const"@.len() == 5);
    assert("const"@[0] == 'c');
    assert("const"@[1] == 'o');
    assert("const"@[2] == 'n');
    assert("const"@[3] == 's');
    assert("const"@[4] == 't');
    lemma_short_word("const"@);
    assert("alloc"@.len() == 5);
    assert("alloc"@[0] == 'a');
    assert("alloc"@[1] == 'l');
    assert("alloc"@[2] == 'l');
    assert("alloc"@[3] == 'o');
    assert("alloc"@[4] == 'c');
    lemma_short_word("alloc"@);
    assert("store"@.len() == 5);
    assert("store"@[0] == 's');
    assert("store"@[1] == 't');
    assert("store"@[2] == 'o');
    assert("store"@[3] == 'r');
    assert("store"@[4] == 'e');
    lemma_short_word("store"@);
    assert("load"@.len() == 4);
    assert("load"@[0] == 'l');
    assert("load"@[1] == 'o');
    assert("load"@[2] == 'a');
    assert("load"@[3] == 'd');
    lemma_short_word("load"@);
    assert("offsetstore"@.len() == 11);
    assert("offsetstore"@[0] == 'o');
    assert("offsetstore"@[1] == 'f');
    assert("offsetstore"@[2] == 'f');
    assert("offsetstore"@[3] == 's');
    assert("offsetstore"@[4] == 'e');
    assert("offsetstore"@[5] == 't');
    assert("offsetstore"@[6] == 's');
    assert("offsetstore"@[7] == 't');
    assert("offsetstore"@[8] == 'o');
    assert("offsetstore"@[9] == 'r');
    assert("offsetstore"@[10] == 'e');
    lemma_short_word("offsetstore"@);
    assert("offsetload"@.len() == 10);
    assert("offsetload"@[0] == 'o');
    assert("offsetload"@[1] == 'f');
    assert("offsetload"@[2] == 'f');
    assert("offsetload"@[3] == 's');
    assert("offsetload"@[4] == 'e');
    assert("offsetload"@[5] == 't');
    assert("offsetload"@[6] == 'l');
    assert("offsetload"@[7] == 'o');
    assert("offsetload"@[8] == 'a');
    assert("offsetload"@[9] == 'd');
    lemma_short_word("offsetload"@);
    assert("return"@.len() == 6);
    assert("return"@[0] == 'r');
    assert("return"@[1] == 'e');
    assert("return"@[2] == 't');
    assert("return"@[3] == 'u');
    assert("return"@[4] == 'r');
    assert("return"@[5] == 'n');
    lemma_short_word("return"@);
    assert("if"@.len() == 2);
    assert("if"@[0] == 'i');
    assert("if"@[1] == 'f');
    lemma_short_word("if"@);
    assert("jmp"@.len() == 3);
    assert("jmp"@[0] == 'j');
    assert("jmp"@[1] == 'm');
    assert("jmp"@[2] == 'p');
    lemma_short_word("jmp"@);
    assert("+"@.len() == 1);
    assert("+"@[0] == '+');
    lemma_short_word("+"@);
    assert("-"@.len() == 1);
    assert("-"@[0] == '-');
    lemma_short_word("-"@);
    assert("*"@.len() == 1);
    assert("*"@[0] == '*');
    lemma_short_word("*"@);
    assert("/"@.len() == 1);
    assert("/"@[0] == '/');
    lemma_short_word("/"@);
    assert("mod"@.len() == 3);
    assert("mod"@[0] == 'm');
    assert("mod"@[1] == 'o');
    assert("mod"@[2] == 'd');
    lemma_short_word("mod"@);
    assert("&"@.len() == 1);
    assert("&"@[0] == '&');
    lemma_short_word("&"@);
    assert("|"@.len() == 1);
    assert("|"@[0] == '|');
    lemma_short_word("|"@);
    assert("<<"@.len() == 2);
    assert("<<"@[0] == '<');
    assert("<<"@[1] == '<');
    lemma_short_word("<<"@);
    assert(">>"@.len() == 2);
    assert(">>"@[0] == '>');
    assert(">>"@[1] == '>');
    lemma_short_word(">>"@);
    assert("=="@.len() == 2);
    assert("=="@[0] == '=');
    assert("=="@[1] == '=');
    lemma_short_word("=="@);
    assert("!="@.len() == 2);
    assert("!="@[0] == '!');
    assert("!="@[1] == '=');
    lemma_short_word("!="@);
    assert("<"@.len() == 1);
    assert("<"@[0] == '<');
    lemma_short_word("<"@);
    assert(">"@.len() == 1);
    assert(">"@[0] == '>');
    lemma_short_word(">"@);
    assert("<="@.len() == 2);
    assert("<="@[0] == '<');
    assert("<="@[1] == '=');
    lemma_short_word("<="@);
    assert(">="@.len() == 2);
    assert(">="@[0] == '>');
    assert(">="@[1] == '=');
    lemma_short_word(">="@);
    assert("not"@.len() == 3);
    assert("not"@[0] == 'n');
    assert("not"@[1] == 'o');
    assert("not"@[2] == 't');
    lemma_short_word("not"@);
    assert("neg"@.len() == 3);
    assert("neg"@[0] == 'n');
    assert("neg"@[1] == 'e');
    assert("neg"@[2] == 'g');
    lemma_short_word("neg"@);
    assert("bitnot"@.len() == 6);
    assert("bitnot"@[0] == 'b');
    assert("bitnot"@[1] == 'i');
    assert("bitnot"@[2] == 't');
    assert("bitnot"@[3] == 'n');
    assert("bitnot"@[4] == 'o');
    assert("bitnot"@[5] == 't');
    lemma_short_word("bitnot"@);
    assert("fn"@.len() == 2);
    assert("fn"@[0] == 'f');
    assert("fn"@[1] == 'n');
    lemma_short_word("fn"@);
    assert("endfn"@.len() == 5);
    assert("endfn"@[0] == 'e');
    assert("endfn"@[1] == 'n');
    assert("endfn"@[2] == 'd');
    assert("endfn"@[3] == 'f');
    assert("endfn"@[4] == 'n');
    lemma_short_word("endfn"@);
    assert("="@.len() == 1);
    assert("="@[0] == '=');
    lemma_short_word("="@);
}

/// No two of the words are the same.
pub proof fn lemma_comp_keywords_differ(i: int, j: int)
    requires
        0 <= j < i < 12,
    ensures
        comp_keywords()[j]@ != comp_keywords()[i]@,
{
    reveal_strlit("call");
    reveal_strlit("binop");
    reveal_strlit("unop");
    reveal_strlit("const");
    reveal_strlit("alloc");
    reveal_strlit("store");
    reveal_strlit("load");
    reveal_strlit("offsetstore");
    reveal_strlit("offsetload");
    reveal_strlit("return");
    reveal_strlit("if");
    reveal_strlit("jmp");
    assert(comp_keywords()[0]@.len() == 4);
    assert(comp_keywords()[0]@[0] == 'c');
    assert(comp_keywords()[0]@[1] == 'a');
    assert(comp_keywords()[1]@.len() == 5);
    assert(comp_keywords()[1]@[0] == 'b');
    assert(comp_keywords()[1]@[1] == 'i');
    assert(comp_keywords()[2]@.len() == 4);
    assert(comp_keywords()[2]@[0] == 'u');
    assert(comp_keywords()[2]@[1] == 'n');
    assert(comp_keywords()[3]@.len() == 5);
    assert(comp_keywords()[3]@[0] == 'c');
    assert(comp_keywords()[3]@[1] == 'o');
    assert(comp_keywords()[4]@.len() == 5);
    assert(comp_keywords()[4]@[0] == 'a');
    assert(comp_keywords()[4]@[1] == 'l');
    assert(comp_keywords()[5]@.len() == 5);
    assert(comp_keywords()[5]@[0] == 's');
    assert(comp_keywords()[5]@[1] == 't');
    assert(comp_keywords()[6]@.len() == 4);
    assert(comp_keywords()[6]@[0] == 'l');
    assert(comp_keywords()[6]@[1] == 'o');
    assert(comp_keywords()[7]@.len() == 11);
    assert(comp_keywords()[7]@[0] == 'o');
    assert(comp_keywords()[7]@[1] == 'f');
    assert(comp_keywords()[8]@.len() == 10);
    assert(comp_keywords()[8]@[0] == 'o');
    assert(comp_keywords()[8]@[1] == 'f');
    assert(comp_keywords()[9]@.len() == 6);
    assert(comp_keywords()[9]@[0] == 'r');
    assert(comp_keywords()[9]@[1] == 'e');
    assert(comp_keywords()[10]@.len() == 2);
    assert(comp_keywords()[10]@[0] == 'i');
    assert(comp_keywords()[10]@[1] == 'f');
    assert(comp_keywords()[11]@.len() == 3);
    assert(comp_keywords()[11]@[0] == 'j');
    assert(comp_keywords()[11]@[1] == 'm');
    assert(i == 0 || i == 1 || i == 2 || i == 3 || i == 4 || i == 5 || i == 6 || i == 7 || i == 8 || i == 9 || i == 10 || i == 11);
    assert(j == 0 || j == 1 || j == 2 || j == 3 || j == 4 || j == 5 || j == 6 || j == 7 || j == 8 || j == 9 || j == 10 || j == 11);
}

/// No two of the words are the same.
pub proof fn lemma_binary_operators_differ(i: int, j: int)
    requires
        0 <= j < i < 15,
    ensures
        binary_operators()[j].0@ != binary_operators()[i].0@,
{
    reveal_strlit("+");
    reveal_strlit("-");
    reveal_strlit("*");
    reveal_strlit("/");
    reveal_strlit("mod");
    reveal_strlit("&");
    reveal_strlit("|");
    reveal_strlit("<<");
    reveal_strlit(">>");
    reveal_strlit("==");
    reveal_strlit("!=");
    reveal_strlit("<");
    reveal_strlit(">");
    reveal_strlit("<=");
    reveal_strlit(">=");
    assert(binary_operators()[0].0@.len() == 1);
    assert(binary_operators()[0].0@[0] == '+');
    assert(binary_operators()[1].0@.len() == 1);
    assert(binary_operators()[1].0@[0] == '-');
    assert(binary_operators()[2].0@.len() == 1);
    assert(binary_operators()[2].0@[0] == '*');
    assert(binary_operators()[3].0@.len() == 1);
    assert(binary_operators()[3].0@[0] == '/');
    assert(binary_operators()[4].0@.len() == 3);
    assert(binary_operators()[4].0@[0] == 'm');
    assert(binary_operators()[4].0@[1] == 'o');
    assert(binary_operators()[5].0@.len() == 1);
    assert(binary_operators()[5].0@[0] == '&');
    assert(binary_operators()[6].0@.len() == 1);
    assert(binary_operators()[6].0@[0] == '|');
    assert(binary_operators()[7].0@.len() == 2);
    assert(binary_operators()[7].0@[0] == '<');
    assert(binary_operators()[7].0@[1] == '<');
    assert(binary_operators()[8].0@.len() == 2);
    assert(binary_operators()[8].0@[0] == '>');
    assert(binary_operators()[8].0@[1] == '>');
    assert(binary_operators()[9].0@.len() == 2);
    assert(binary_operators()[9].0@[0] == '=');
    assert(binary_operators()[9].0@[1] == '=');
    assert(binary_operators()[10].0@.len() == 2);
    assert(binary_operators()[10].0@[0] == '!');
    assert(binary_operators()[10].0@[1] == '=');
    assert(binary_operators()[11].0@.len() == 1);
    assert(binary_operators()[11].0@[0] == '<');
    assert(binary_operators()[12].0@.len() == 1);
    assert(binary_operators()[12].0@[0] == '>');
    assert(binary_operators()[13].0@.len() == 2);
    assert(binary_operators()[13].0@[0] == '<');
    assert(binary_operators()[13].0@[1] == '=');
    assert(binary_operators()[14].0@.len() == 2);
    assert(binary_operators()[14].0@[0] == '>');
    assert(binary_operators()[14].0@[1] == '=');
    assert(i == 0 || i == 1 || i == 2 || i == 3 || i == 4 || i == 5 || i == 6 || i == 7 || i == 8 || i == 9 || i == 10 || i == 11 || i == 12 || i == 13 || i == 14);
    assert(j == 0 || j == 1 || j == 2 || j == 3 || j == 4 || j == 5 || j == 6 || j == 7 || j == 8 || j == 9 || j == 10 || j == 11 || j == 12 || j == 13 || j == 14);
}

/// No two of the words are the same.
pub proof fn lemma_unary_operators_differ(i: int, j: int)
    requires
        0 <= j < i < 3,
    ensures
        unary_operators()[j].0@ != unary_operators()[i].0@,
{
    reveal_strlit("not");
    reveal_strlit("neg");
    reveal_strlit("bitnot");
    assert(unary_operators()[0].0@.len() == 3);
    assert(unary_operators()[0].0@[0] == 'n');
    assert(unary_operators()[0].0@[1] == 'o');
    assert(unary_operators()[1].0@.len() == 3);
    assert(unary_operators()[1].0@[0] == 'n');
    assert(unary_operators()[1].0@[1] == 'e');
    assert(unary_operators()[2].0@.len() == 6);
    assert(unary_operators()[2].0@[0] == 'b');
    assert(unary_operators()[2].0@[1] == 'i');
    assert(i == 0 || i == 1 || i == 2);
    assert(j == 0 || j == 1 || j == 2);
}

/// The place of a binary operation among the operators.
pub open spec fn binary_index(kind: IRCompBinaryOperationKind) -> int {
    match kind {
        IRCompBinaryOperationKind::Plus => 0,
        IRCompBinaryOperationKind::Minus => 1,
        IRCompBinaryOperationKind::Mul => 2,
        IRCompBinaryOperationKind::Div => 3,
        IRCompBinaryOperationKind::Mod => 4,
        IRCompBinaryOperationKind::BitAnd => 5,
        IRCompBinaryOperationKind::BitOr => 6,
        IRCompBinaryOperationKind::BitLShift => 7,
        IRCompBinaryOperationKind::BitRShift => 8,
        IRCompBinaryOperationKind::Equal => 9,
        IRCompBinaryOperationKind::NotEqual => 10,
        IRCompBinaryOperationKind::Lesser => 11,
        IRCompBinaryOperationKind::Greater => 12,
        IRCompBinaryOperationKind::LesserEqual => 13,
        IRCompBinaryOperationKind::GreaterEqual => 14,
    }
}

/// The word that is written for a binary operation is the one that is read
/// as that operation.
pub proof fn lemma_binary_index(kind: IRCompBinaryOperationKind)
    ensures
        0 <= binary_index(kind) < binary_operators().len(),
        binary_operators().len() == 15,
        binary_operators()[binary_index(kind)].1 == kind,
        binary_operators()[binary_index(kind)].0@ == binary_operator_text(kind),
{
}

/// The place of a unary operation among the operators.
pub open spec fn unary_index(kind: IRCompUnaryOperationKind) -> int {
    match kind {
        IRCompUnaryOperationKind::BoolNot => 0,
        IRCompUnaryOperationKind::SignedNegation => 1,
        IRCompUnaryOperationKind::BitNot => 2,
    }
}

/// The word that is written for a unary operation is the one that is read
/// as that operation.
pub proof fn lemma_unary_index(kind: IRCompUnaryOperationKind)
    ensures
        0 <= unary_index(kind) < unary_operators().len(),
        unary_operators().len() == 3,
        unary_operators()[unary_index(kind)].1 == kind,
        unary_operators()[unary_index(kind)].0@ == unary_operator_text(kind),
{
}

/// None of the words with which a computation begins ends a function.
pub proof fn lemma_comp_keywords_end_nothing(i: int)
    requires
        0 <= i < 12,
    ensures
        comp_keywords()[i]@ != "endfn"@,
{
    reveal_strlit("call");
    reveal_strlit("binop");
    reveal_strlit("unop");
    reveal_strlit("const");
    reveal_strlit("alloc");
    reveal_strlit("store");
    reveal_strlit("load");
    reveal_strlit("offsetstore");
    reveal_strlit("offsetload");
    reveal_strlit("return");
    reveal_strlit("if");
    reveal_strlit("jmp");
    reveal_strlit("endfn");
    let word = comp_keywords()[i]@;
    if word.len() == 5 {
        assert(word[0] != 'e');
        assert("endfn"@[0] == 'e');
    }
}

} // verus!
