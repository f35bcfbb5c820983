use solidc::solidlang::lexer::{lex, Token, TokenKind};

fn kinds(src: &str) -> Vec<TokenKind> {
    lex(src).iter().map(|token| token.kind).collect()
}

#[test]
fn the_longest_sign_is_taken() {
    assert_eq!(
        kinds("::< :: : <~ <= < >= > == = -> - && & || | ~> ~ != !"),
        vec![
            TokenKind::LTurbofish,
            TokenKind::ColonColon,
            TokenKind::Colon,
            TokenKind::BitLShift,
            TokenKind::LesserEqual,
            TokenKind::LABracket,
            TokenKind::GreaterEqual,
            TokenKind::RABracket,
            TokenKind::Equal,
            TokenKind::Assign,
            TokenKind::Arrow,
            TokenKind::Minus,
            TokenKind::BoolAnd,
            TokenKind::BitAnd,
            TokenKind::BoolOr,
            TokenKind::BitOr,
            TokenKind::BitRShift,
            TokenKind::BitNot,
            TokenKind::NotEqual,
            TokenKind::BoolNot,
            TokenKind::EOF,
        ]
    );
}

#[test]
fn signs_of_one_character() {
    assert_eq!(
        kinds(";.,()[]{}+*/%"),
        vec![
            TokenKind::Semicolon,
            TokenKind::Dot,
            TokenKind::Comma,
            TokenKind::LParen,
            TokenKind::RParen,
            TokenKind::LSBracket,
            TokenKind::RSBracket,
            TokenKind::LCBracket,
            TokenKind::RCBracket,
            TokenKind::Plus,
            TokenKind::Mul,
            TokenKind::Div,
            TokenKind::Mod,
            TokenKind::EOF,
        ]
    );
}

#[test]
fn keywords_and_identifiers() {
    assert_eq!(
        kinds("fn struct template let if else while for in loop return break continue true false"),
        vec![
            TokenKind::KwFn,
            TokenKind::KwStruct,
            TokenKind::KwTemplate,
            TokenKind::KwLet,
            TokenKind::KwIf,
            TokenKind::KwElse,
            TokenKind::KwWhile,
            TokenKind::KwFor,
            TokenKind::KwIn,
            TokenKind::KwLoop,
            TokenKind::KwReturn,
            TokenKind::KwBreak,
            TokenKind::KwContinue,
            TokenKind::BooleanTrue,
            TokenKind::BooleanFalse,
            TokenKind::EOF,
        ]
    );
    assert_eq!(
        kinds("fnx _if i32 In x1_y"),
        vec![
            TokenKind::Ident,
            TokenKind::Ident,
            TokenKind::Ident,
            TokenKind::Ident,
            TokenKind::Ident,
            TokenKind::EOF,
        ]
    );
}

#[test]
fn digits_end_before_a_letter() {
    assert_eq!(kinds("12ab"), vec![TokenKind::IntegerLiteral, TokenKind::Ident, TokenKind::EOF]);
    assert_eq!(kinds("007"), vec![TokenKind::IntegerLiteral, TokenKind::EOF]);
}

#[test]
fn tokens_know_their_places() {
    let tokens = lex("ab  12\n");
    assert_eq!(
        tokens,
        vec![
            Token { kind: TokenKind::Ident, first: 0, end: 2, start: 0, len: 2 },
            Token { kind: TokenKind::IntegerLiteral, first: 4, end: 6, start: 4, len: 2 },
            Token { kind: TokenKind::EOF, first: 7, end: 7, start: 7, len: 0 },
        ]
    );
}

#[test]
fn the_empty_text_is_its_end() {
    assert_eq!(lex(""), vec![Token { kind: TokenKind::EOF, first: 0, end: 0, start: 0, len: 0 }]);
    assert_eq!(kinds(" \t\r\n\x0C"), vec![TokenKind::EOF]);
}

#[test]
fn a_character_of_no_token_is_an_error() {
    assert_eq!(kinds("a $ b"), vec![TokenKind::Ident, TokenKind::Error, TokenKind::Ident, TokenKind::EOF]);
    // The places count characters, the offsets bytes.
    assert_eq!(
        lex("é x"),
        vec![
            Token { kind: TokenKind::Error, first: 0, end: 1, start: 0, len: 2 },
            Token { kind: TokenKind::Ident, first: 2, end: 3, start: 3, len: 1 },
            Token { kind: TokenKind::EOF, first: 3, end: 3, start: 4, len: 0 },
        ]
    );
}

#[test]
fn the_nul_character_ends_the_text() {
    assert_eq!(
        lex("a\0b"),
        vec![
            Token { kind: TokenKind::Ident, first: 0, end: 1, start: 0, len: 1 },
            Token { kind: TokenKind::EOF, first: 1, end: 2, start: 1, len: 1 },
        ]
    );
}
