use solidc::globals::StringInterner;
use solidc::solidlang::ast::{
    ASTExpression, ASTExpressionKind, ASTItemKind, ASTOperator, ASTStatementKind, ASTTypeKind,
};
use solidc::solidlang::lexer::{lex, TokenKind};
use solidc::solidlang::parser::{parse_source, Parser, ParserErrorKind};
use solidc::solidlang::span::Span;

fn expression(src: &str, interner: &mut StringInterner) -> ASTExpression {
    let mut parser = Parser::new(lex(src), src);
    parser.parse_expression(interner).unwrap()
}

// The expression in a notation with all brackets.
fn show(e: &ASTExpression, interner: &StringInterner) -> String {
    match &e.kind {
        ASTExpressionKind::Ident(symbol) => interner.get(symbol).unwrap(),
        ASTExpressionKind::IntegerLiteral(n) => n.to_string(),
        ASTExpressionKind::Boolean(b) => b.to_string(),
        ASTExpressionKind::UnaryOperation(operator, operand) => {
            format!("({:?} {})", operator, show(operand, interner))
        }
        ASTExpressionKind::BinaryOperation(operator, left, right) => {
            format!("({} {:?} {})", show(left, interner), operator, show(right, interner))
        }
        ASTExpressionKind::Call(called, args) => {
            let args: Vec<String> = args.iter().map(|arg| show(arg, interner)).collect();
            format!("{}({})", show(called, interner), args.join(", "))
        }
        ASTExpressionKind::Index(indexed, index) => {
            format!("{}[{}]", show(indexed, interner), show(index, interner))
        }
        ASTExpressionKind::MemberAccess(accessed, member) => {
            format!("{}.{}", show(accessed, interner), interner.get(member).unwrap())
        }
        ASTExpressionKind::StaticAccess(accessed, member) => {
            format!("{}::{}", show(accessed, interner), interner.get(member).unwrap())
        }
        ASTExpressionKind::TemplateApplication(applied, args) => {
            format!("{}::<{} types>", show(applied, interner), args.len())
        }
        ASTExpressionKind::If(condition, _, else_block) => {
            format!("if {} else={}", show(condition, interner), else_block.is_some())
        }
        ASTExpressionKind::While(condition, _) => format!("while {}", show(condition, interner)),
        ASTExpressionKind::Loop(_) => String::from("loop"),
        ASTExpressionKind::For(variable, iterated, _) => {
            format!("for {} in {}", interner.get(variable).unwrap(), show(iterated, interner))
        }
        ASTExpressionKind::Block(block) => format!("block of {}", block.statements.len()),
    }
}

fn shown(src: &str) -> String {
    let mut interner = StringInterner::new();
    let e = expression(src, &mut interner);
    show(&e, &interner)
}

#[test]
fn stronger_operators_bind_first() {
    assert_eq!(shown("1 + 2 * 3"), "(1 Plus (2 Mul 3))");
    assert_eq!(shown("1 * 2 + 3"), "((1 Mul 2) Plus 3)");
    assert_eq!(shown("a = b | c & d"), "(a Assign (b BitOr (c BitAnd d)))");
    // Comparisons bind more weakly than the operators on truth values.
    assert_eq!(shown("a || b && c == d"), "((a BoolOr (b BoolAnd c)) Equal d)");
    assert_eq!(shown("a <~ 1 + 2"), "(a BitLShift (1 Plus 2))");
    assert_eq!(shown("a < b ~> c"), "((a Lesser b) BitRShift c)");
}

#[test]
fn an_operator_takes_what_follows_it() {
    // Operators that bind equally group to the right.
    assert_eq!(shown("1 - 2 - 3"), "(1 Minus (2 Minus 3))");
    assert_eq!(shown("8 / 4 * 2 % 3"), "(8 Div (4 Mul (2 Mod 3)))");
}

#[test]
fn operators_before_their_operand() {
    assert_eq!(shown("-a + !b"), "((Minus a) Plus (BoolNot b))");
    assert_eq!(shown("~-x"), "(BitNot (Minus x))");
    assert_eq!(shown("-f(1)"), "(Minus f(1))");
}

#[test]
fn what_follows_an_expression_applies_to_all_before_it() {
    assert_eq!(shown("a.b::c(1, x)[2]"), "a.b::c(1, x)[2]");
    assert_eq!(shown("f()"), "f()");
    assert_eq!(shown("id::<u8, *V<u16>>(a)"), "id::<2 types>(a)");
    assert_eq!(shown("(1 + 2) * 3"), "((1 Plus 2) Mul 3)");
}

#[test]
fn expressions_with_blocks() {
    assert_eq!(shown("if a { 1 } else { 2 }"), "if a else=true");
    assert_eq!(shown("if a { 1 }"), "if a else=false");
    assert_eq!(shown("while a < 3 { }"), "while (a Lesser 3)");
    assert_eq!(shown("loop { break; }"), "loop");
    assert_eq!(shown("for i in xs { }"), "for i in xs");
    assert_eq!(shown("{ 1; 2 }"), "block of 2");
    assert_eq!(shown("true"), "true");
    assert_eq!(shown("false"), "false");
}

#[test]
fn places_of_expressions() {
    let mut interner = StringInterner::new();
    let e = expression("  ab + 12 ", &mut interner);
    assert_eq!(e.span, Span { start: 2, len: 7 });
    match e.kind {
        ASTExpressionKind::BinaryOperation(operator, left, right) => {
            assert_eq!(operator, ASTOperator::Plus);
            assert_eq!(left.span, Span { start: 2, len: 2 });
            assert_eq!(right.span, Span { start: 7, len: 2 });
        }
        _ => panic!("no operation"),
    }
}

#[test]
fn a_number_that_is_too_large_is_refused() {
    let mut interner = StringInterner::new();
    let src = "18446744073709551615";
    let e = expression(src, &mut interner);
    assert!(matches!(e.kind, ASTExpressionKind::IntegerLiteral(18446744073709551615)));

    let src = "18446744073709551616";
    let mut parser = Parser::new(lex(src), src);
    let error = parser.parse_expression(&mut interner).unwrap_err();
    match error.kind {
        ParserErrorKind::UnexpectedToken { expected, got } => {
            assert!(expected.is_empty());
            assert_eq!(got, TokenKind::EOF);
        }
        _ => panic!("another error"),
    }
    assert_eq!(error.span, Span { start: 20, len: 0 });
}

#[test]
fn the_items_of_a_module() {
    let src = "
template<T>
struct Test {
    field_1: T,
    field_2: T,
    field_3: T
}

fn main(a: Test<u8>, b: Test<u16>) -> i32 {
    fn test(t: Test<u8>) -> i32 { 0 }
    fn test(t: Test<u16>) -> bool { true }

    if { return test(a); } {
        return test(a);
    }

    0
}
    ";
    let mut interner = StringInterner::new();
    let module = parse_source(src, &mut interner).unwrap();
    assert_eq!(module.items.len(), 2);
    match &module.items[0].kind {
        ASTItemKind::Template(template) => {
            assert_eq!(template.params, vec![interner.lookup("T").unwrap()]);
            assert_eq!(template.items.len(), 1);
            match &template.items[0].kind {
                ASTItemKind::StructDef(definition) => {
                    assert_eq!(definition.name, interner.lookup("Test").unwrap());
                    assert_eq!(definition.fields.len(), 3);
                    assert_eq!(definition.fields[2].name, interner.lookup("field_3").unwrap());
                }
                _ => panic!("no structure"),
            }
        }
        _ => panic!("no template"),
    }
    match &module.items[1].kind {
        ASTItemKind::FunctionDef(function) => {
            assert_eq!(function.name, interner.lookup("main").unwrap());
            assert_eq!(function.params.len(), 2);
            match &function.params[1].ast_type.kind {
                ASTTypeKind::Path { symbols, generic_args } => {
                    assert_eq!(symbols, &vec![interner.lookup("Test").unwrap()]);
                    assert_eq!(generic_args.len(), 1);
                }
                _ => panic!("no path"),
            }
            assert!(function.return_type.is_some());
            let statements = &function.statement_block.statements;
            assert_eq!(statements.len(), 4);
            assert!(matches!(statements[0].kind, ASTStatementKind::Item(_)));
            assert!(matches!(statements[1].kind, ASTStatementKind::Item(_)));
            assert!(matches!(
                statements[2].kind,
                ASTStatementKind::Expression(ASTExpression {
                    kind: ASTExpressionKind::If(_, _, None),
                    ..
                })
            ));
            assert!(matches!(
                statements[3].kind,
                ASTStatementKind::Expression(ASTExpression {
                    kind: ASTExpressionKind::IntegerLiteral(0),
                    ..
                })
            ));
        }
        _ => panic!("no function"),
    }
    assert_eq!(module.span.start, 1);
}

#[test]
fn statements_of_every_kind() {
    let src = "fn f() { ; let a; let b: *u8 = 1; return 2; break; continue; struct S { } g() }";
    let mut interner = StringInterner::new();
    let module = parse_source(src, &mut interner).unwrap();
    let statements = match &module.items[0].kind {
        ASTItemKind::FunctionDef(function) => &function.statement_block.statements,
        _ => panic!("no function"),
    };
    assert_eq!(statements.len(), 8);
    assert!(matches!(statements[0].kind, ASTStatementKind::Semicolon));
    assert!(matches!(statements[1].kind, ASTStatementKind::LocalBinding(_, None, None)));
    assert!(matches!(statements[2].kind, ASTStatementKind::LocalBinding(_, Some(_), Some(_))));
    assert!(matches!(statements[3].kind, ASTStatementKind::Return(_)));
    assert!(matches!(statements[4].kind, ASTStatementKind::Break));
    assert!(matches!(statements[5].kind, ASTStatementKind::Continue));
    assert!(matches!(statements[6].kind, ASTStatementKind::Item(_)));
    assert!(matches!(statements[7].kind, ASTStatementKind::Expression(_)));
}

#[test]
fn templates_of_one_item_and_of_several() {
    let src = "template<A, B> fn f(a: A) -> B { } template<T> { struct S { x: T } struct U { } }";
    let mut interner = StringInterner::new();
    let module = parse_source(src, &mut interner).unwrap();
    assert_eq!(module.items.len(), 2);
    match (&module.items[0].kind, &module.items[1].kind) {
        (ASTItemKind::Template(one), ASTItemKind::Template(several)) => {
            assert_eq!(one.params.len(), 2);
            assert_eq!(one.items.len(), 1);
            assert_eq!(several.params.len(), 1);
            assert_eq!(several.items.len(), 2);
        }
        _ => panic!("no templates"),
    }
}

#[test]
fn an_unexpected_token_is_reported_with_what_was_tried() {
    let src = "fn main( {";
    let mut interner = StringInterner::new();
    let error = parse_source(src, &mut interner).unwrap_err();
    match error.kind {
        ParserErrorKind::UnexpectedToken { expected, got } => {
            assert_eq!(expected, vec![TokenKind::RParen, TokenKind::Ident]);
            assert_eq!(got, TokenKind::LCBracket);
        }
        _ => panic!("another error"),
    }
    assert_eq!(error.span, Span { start: 9, len: 1 });
}

#[test]
fn a_module_consists_of_items() {
    let mut interner = StringInterner::new();
    let error = parse_source("let x;", &mut interner).unwrap_err();
    match error.kind {
        ParserErrorKind::UnexpectedToken { expected, got } => {
            assert_eq!(
                expected,
                vec![TokenKind::EOF, TokenKind::KwFn, TokenKind::KwStruct, TokenKind::KwTemplate]
            );
            assert_eq!(got, TokenKind::KwLet);
        }
        _ => panic!("another error"),
    }
    let module = parse_source("", &mut interner).unwrap();
    assert!(module.items.is_empty());
}

#[test]
fn a_semicolon_separates_statements() {
    let mut interner = StringInterner::new();
    let error = parse_source("fn f() { 1 2 }", &mut interner).unwrap_err();
    match error.kind {
        ParserErrorKind::UnexpectedToken { expected, got } => {
            // What could have followed `1`: something that applies to it,
            // an operator, the end of the block or a semicolon.
            assert_eq!(expected.len(), 5 + 18 + 2);
            assert_eq!(expected[0], TokenKind::Dot);
            assert_eq!(expected[5], TokenKind::Assign);
            assert_eq!(expected[23], TokenKind::RCBracket);
            assert_eq!(expected[24], TokenKind::Semicolon);
            assert_eq!(got, TokenKind::IntegerLiteral);
        }
        _ => panic!("another error"),
    }
    assert_eq!(error.span, Span { start: 11, len: 1 });

    // None has to follow a statement that ends with a block of its own.
    assert!(parse_source("fn f() { if a { } while b { } loop { } fn g() { } 1; 2; }", &mut interner).is_ok());
    assert!(parse_source("fn f() { 1;; 2 }", &mut interner).is_ok());
}

#[test]
fn names_are_interned_once() {
    let mut interner = StringInterner::new();
    let before = interner.intern("x");
    let module = parse_source("fn x(x: x) -> x { x }", &mut interner).unwrap();
    assert_eq!(interner.len(), 1);
    match &module.items[0].kind {
        ASTItemKind::FunctionDef(function) => {
            assert_eq!(function.name, before);
            assert_eq!(function.params[0].name, before);
        }
        _ => panic!("no function"),
    }
}
