use solidc::globals::{StringInterner, Symbol};
use solidc::ir::assembly::assembly_for_ir_modules;
use solidc::ir::comp::{IRCompKind, IRCompUnaryOperationKind};
use solidc::ir::interpreter::bytes::Endianness;
use solidc::ir::interpreter::semantics::IRInterpreterLimits;
use solidc::ir::interpreter::value::IRInterpreterValue;
use solidc::ir::interpreter::IRInterpreter;
use solidc::ir::{IRItemFunctionDef, IRItemKind, IRModule, IRType};
use solidc::solidlang::context::layout::LayoutError;
use solidc::solidlang::context::ty::{Ty, TyPrimitive};
use solidc::solidlang::lowerer::codegen::{CodegenContext, CompilationResult, Value};
use solidc::solidlang::lowerer::error::{
    CompileError, CompileErrorKind, OverloadError, ResolveError, TemplateError, TypeError,
};
use solidc::solidlang::lowerer::Lowerer;
use solidc::solidlang::parser::parse_source;
use solidc::solidlang::span::Span;

fn lower_in(src: &str, endian: Endianness) -> Result<(IRModule, StringInterner), CompileError> {
    let mut interner = StringInterner::new();
    let module = parse_source(src, &mut interner).unwrap();
    Lowerer::with(interner, endian, 64).process_module(&module)
}

fn lower(src: &str) -> (IRModule, StringInterner) {
    lower_in(src, Endianness::Little).unwrap()
}

fn text(src: &str) -> String {
    let (module, interner) = lower(src);
    assembly_for_ir_modules(&module, &interner).unwrap()
}

fn error(src: &str) -> CompileErrorKind {
    lower_in(src, Endianness::Little).err().unwrap().kind
}

fn function<'a>(module: &'a IRModule, interner: &StringInterner, name: &str) -> &'a IRItemFunctionDef {
    let name = interner.lookup(name).unwrap();
    for item in &module.items {
        match &item.kind {
            IRItemKind::FunctionDef(function) => {
                if function.name == name {
                    return function;
                }
            }
        }
    }
    panic!("no such function");
}

fn run(src: &str, name: &str, args: &[IRInterpreterValue]) -> Vec<u8> {
    let (module, interner) = lower(src);
    let name = interner.lookup(name).unwrap();
    let limits =
        IRInterpreterLimits { max_frames: 64, max_values: 4096, max_memory: 4096, max_steps: 100_000 };
    let mut interpreter = IRInterpreter::with(Endianness::Little, limits);
    interpreter.load_module(module);
    interpreter.call_function(name, args).unwrap().bytes
}

fn byte(value: u8) -> IRInterpreterValue {
    IRInterpreterValue::from_u8(value)
}

fn word(value: u32) -> IRInterpreterValue {
    IRInterpreterValue::from_uint(value as u64, 4, Endianness::Little)
}

#[test]
fn a_literal_has_the_bytes_of_its_type() {
    assert_eq!(
        text("fn main() -> i32 { 7 }"),
        "fn main__0: -> (4 4)\n    %_v0 := const 4 7 0 0 0\n    return %_v0\nendfn"
    );
    let (module, interner) = lower_in("fn main() -> i32 { 7 }", Endianness::Big).unwrap();
    assert_eq!(
        assembly_for_ir_modules(&module, &interner).unwrap(),
        "fn main__0: -> (4 4)\n    %_v0 := const 4 0 0 0 7\n    return %_v0\nendfn"
    );
    assert_eq!(
        text("fn main() -> u16 { 258 }"),
        "fn main__0: -> (2 2)\n    %_v0 := const 2 2 1\n    return %_v0\nendfn"
    );
    assert_eq!(
        text("fn main() -> u64 { 18446744073709551615 }"),
        "fn main__0: -> (8 8)\n    %_v0 := const 8 255 255 255 255 255 255 255 255\n    return %_v0\nendfn"
    );
    assert_eq!(
        text("fn main() -> bool { true }"),
        "fn main__0: -> (1 1)\n    %_v0 := const 1 1\n    return %_v0\nendfn"
    );
    assert_eq!(
        text("fn main() -> bool { false }"),
        "fn main__0: -> (1 1)\n    %_v0 := const 1 0\n    return %_v0\nendfn"
    );
}

#[test]
fn a_literal_has_to_fit_its_type() {
    let overflow = CompileErrorKind::Type(TypeError::LiteralOverflow);
    let fits = |ty: &str, literal: &str| {
        lower_in(&format!("fn main() -> {} {{ {} }}", ty, literal), Endianness::Little)
            .map(|_| ())
            .map_err(|e| e.kind)
    };
    assert_eq!(fits("u8", "255"), Ok(()));
    assert_eq!(fits("u8", "256"), Err(overflow));
    assert_eq!(fits("i8", "127"), Ok(()));
    assert_eq!(fits("i8", "128"), Err(overflow));
    assert_eq!(fits("u16", "65535"), Ok(()));
    assert_eq!(fits("u16", "65536"), Err(overflow));
    assert_eq!(fits("i16", "32767"), Ok(()));
    assert_eq!(fits("i16", "32768"), Err(overflow));
    assert_eq!(fits("u32", "4294967295"), Ok(()));
    assert_eq!(fits("u32", "4294967296"), Err(overflow));
    assert_eq!(fits("i32", "2147483647"), Ok(()));
    assert_eq!(fits("i32", "2147483648"), Err(overflow));
    assert_eq!(fits("u64", "18446744073709551615"), Ok(()));
    assert_eq!(fits("i64", "9223372036854775807"), Ok(()));
    assert_eq!(fits("i64", "9223372036854775808"), Err(overflow));
    assert_eq!(
        lower_in("fn main() -> u8 { 256 }", Endianness::Little).err(),
        Some(CompileError { kind: overflow, span: Span { start: 18, len: 3 } })
    );
}

#[test]
fn a_while_jumps_out_where_its_condition_does_not_hold() {
    let (module, interner) = lower("fn main(a: u8, b: u8) -> u8 { while a < b { } a }");
    let main = function(&module, &interner, "main__0");
    let kinds: Vec<&str> = main
        .comps
        .iter()
        .map(|comp| match &comp.kind {
            IRCompKind::BinaryOperation(_) => "binop",
            IRCompKind::UnaryOperation(operation) => match operation.kind {
                IRCompUnaryOperationKind::BoolNot => "not",
                _ => "unop",
            },
            IRCompKind::If(_, _) => "if",
            IRCompKind::Jmp(_) => "jmp",
            IRCompKind::Return(_) => "return",
            _ => "other",
        })
        .collect();
    assert_eq!(kinds, vec!["binop", "not", "if", "jmp", "return"]);
    // The first label stands before the condition, the second one behind
    // the jump back.
    assert_eq!(main.label_defs.len(), 2);
    let (begin, end) = (main.label_defs[0], main.label_defs[1]);
    assert_eq!((begin.1, end.1), (0, 4));
    match (&main.comps[1].kind, &main.comps[2].kind, &main.comps[3].kind) {
        (IRCompKind::UnaryOperation(not), IRCompKind::If(tested, target), IRCompKind::Jmp(back)) => {
            assert_eq!(Some(not.operand.id), main.comps[0].id);
            assert_eq!(Some(tested.id), main.comps[1].id);
            assert_eq!(*target, end.0);
            assert_eq!(*back, begin.0);
        }
        _ => panic!("another shape"),
    }
    assert_eq!(
        text("fn main(c: bool) { while c { } }"),
        "fn main__0: %_param_0 := (1 1) -> (0 1)\n    :_l0\n    %_v2 := unop not %_param_0\n    \
         if %_v2 _l1\n    jmp _l0\n    :_l1\nendfn"
    );
}

#[test]
fn break_and_continue_jump_to_the_labels_of_the_loop() {
    assert_eq!(
        text("fn main(c: bool, d: bool) -> i32 { while c { if d { break; } continue; } 0 }"),
        "fn main__0: %_param_0 := (1 1) %_param_1 := (1 1) -> (4 4)\n    :_l0\n    \
         %_v2 := unop not %_param_0\n    if %_v2 _l1\n    %_v5 := unop not %_param_1\n    \
         if %_v5 _l3\n    jmp _l1\n    :_l3\n    jmp _l0\n    jmp _l0\n    :_l1\n    \
         %_v6 := const 4 0 0 0 0\n    return %_v6\nendfn"
    );
    assert_eq!(error("fn main() -> i32 { break; 0 }"), CompileErrorKind::OutsideLoop);
    assert_eq!(error("fn main() -> i32 { continue; 0 }"), CompileErrorKind::OutsideLoop);
}

#[test]
fn an_if_without_else_is_a_statement() {
    assert_eq!(
        text("fn main(c: bool) -> i32 { if c { return 1; } 0 }"),
        "fn main__0: %_param_0 := (1 1) -> (4 4)\n    %_v2 := unop not %_param_0\n    \
         if %_v2 _l0\n    %_v3 := const 4 1 0 0 0\n    return %_v3\n    :_l0\n    \
         %_v4 := const 4 0 0 0 0\n    return %_v4\nendfn"
    );
    let src = "fn main(c: bool) -> i32 { if c { return 1; } 0 }";
    assert_eq!(run(src, "main__0", &[byte(1)]), vec![1, 0, 0, 0]);
    assert_eq!(run(src, "main__0", &[byte(0)]), vec![0, 0, 0, 0]);
}

#[test]
fn the_program_of_the_driver() {
    let src = "
template<T>
struct Test {
    field_1: T,
    field_2: T,
    field_3: T
}

fn main(a: Test<u8>, b: Test<u16>) -> i32 {
    fn test(t: Test<u8>) -> i32 { 0 }
    fn test(t: Test<u16>) -> bool { true }

    if { return test(a); } {
        return test(a);
    }

    0
}
    ";
    assert_eq!(
        text(src),
        "fn test__1: %_param_0 := (3 1) -> (4 4)\n    %_v0 := const 4 0 0 0 0\n    return %_v0\nendfn\n\n\
         fn test__2: %_param_0 := (6 2) -> (1 1)\n    %_v0 := const 1 1\n    return %_v0\nendfn\n\n\
         fn main__0: %_param_0 := (3 1) %_param_1 := (6 2) -> (4 4)\n    \
         %_v0 := call test__1 1 %_param_0\n    return %_v0\nendfn"
    );
}

#[test]
fn operations_on_numbers() {
    assert_eq!(
        text("fn main(a: i32, b: i32) -> bool { a < b }"),
        "fn main__0: %_param_0 := (4 4) %_param_1 := (4 4) -> (1 1)\n    \
         %_v0 := binop < %_param_0 %_param_1\n    return %_v0\nendfn"
    );
    assert_eq!(
        text("fn main(a: i32) -> i32 { -a }"),
        "fn main__0: %_param_0 := (4 4) -> (4 4)\n    %_v0 := unop neg %_param_0\n    return %_v0\nendfn"
    );
    assert_eq!(
        text("fn main(a: u8) -> u8 { ~a }"),
        "fn main__0: %_param_0 := (1 1) -> (1 1)\n    %_v0 := unop bitnot %_param_0\n    return %_v0\nendfn"
    );
    assert_eq!(
        text("fn main(a: bool) -> bool { !a }"),
        "fn main__0: %_param_0 := (1 1) -> (1 1)\n    %_v0 := unop not %_param_0\n    return %_v0\nendfn"
    );
    let src = "fn main(a: i32, b: i32) -> bool { a < b }";
    assert_eq!(run(src, "main__0", &[word(3), word(5)]), vec![1]);
    assert_eq!(run(src, "main__0", &[word(5), word(3)]), vec![0]);
    let src = "fn main(a: i32) -> i32 { -a }";
    assert_eq!(run(src, "main__0", &[word(1)]), vec![255, 255, 255, 255]);
}

#[test]
fn names_that_stand_for_nothing() {
    assert_eq!(
        error("fn main() -> i32 { nothing }"),
        CompileErrorKind::Resolve(ResolveError::UnknownIdentifier)
    );
    assert_eq!(
        error("fn main() -> Unknown { 0 }"),
        CompileErrorKind::Resolve(ResolveError::UnknownType)
    );
}

#[test]
fn constructs_that_are_not_lowered() {
    assert_eq!(error("fn main() -> i32 { loop { } }"), CompileErrorKind::NotImplemented);
}

#[test]
fn no_function_fits_the_call() {
    assert_eq!(
        error("fn f(x: u8) -> i32 { 0 } fn main(a: u16) -> i32 { f(a) }"),
        CompileErrorKind::Overload(OverloadError::NoMatch)
    );
}

#[test]
fn a_function_of_a_template_is_lowered_once_for_its_arguments() {
    assert_eq!(
        text("template<T> fn id(x: T) -> T { x } fn main(a: u8) -> u8 { id::<u8>(a) }"),
        "fn id__1: %_param_0 := (1 1) -> (1 1)\n    return %_param_0\nendfn\n\n\
         fn main__0: %_param_0 := (1 1) -> (1 1)\n    %_v0 := call id__1 1 %_param_0\n    \
         return %_v0\nendfn"
    );
}

#[test]
fn structures_of_a_template_have_the_sizes_of_their_arguments() {
    let src = "template<T> struct V { x: T, y: T, z: T } fn main(a: V<u16>, b: V<u8>) -> i32 { 0 }";
    let (module, interner) = lower(src);
    let main = function(&module, &interner, "main__0");
    let types: Vec<IRType> = main.params.iter().map(|param| param.1).collect();
    assert_eq!(types, vec![IRType { size: 6, align: 2 }, IRType { size: 3, align: 1 }]);
}

#[test]
fn programs_that_are_lowered_and_run() {
    let src = "fn main(a: i32, b: i32) -> i32 { a + b * 2 - 1 }";
    assert_eq!(run(src, "main__0", &[word(10), word(3)]), vec![15, 0, 0, 0]);
    let src = "fn main(a: u8) -> u8 { let b: u8 = a; { let a: u8 = 2; b + a } }";
    assert_eq!(run(src, "main__0", &[byte(5)]), vec![7]);
    let src = "fn main() -> i32 { 1 + 2 }";
    assert_eq!(run(src, "main__0", &[]), vec![3, 0, 0, 0]);
    let src = "fn main(a: u8) -> u8 { return a; }";
    assert_eq!(run(src, "main__0", &[byte(9)]), vec![9]);
    let src = "fn main() { }";
    assert_eq!(text(src), "fn main__0: -> (0 1)\nendfn");
    assert_eq!(run(src, "main__0", &[]), Vec::<u8>::new());
    let src = "template<T> fn id(x: T) -> T { x } fn main(a: u8) -> u8 { id::<u8>(a) + id::<u8>(a) }";
    assert_eq!(run(src, "main__0", &[byte(21)]), vec![42]);
    // The function of the template is lowered once.
    assert_eq!(lower(src).0.items.len(), 2);
    let src = "fn main(c: bool) -> i32 { let x: i32 = 0; while c { return 1; } x }";
    assert_eq!(run(src, "main__0", &[byte(1)]), vec![1, 0, 0, 0]);
    assert_eq!(run(src, "main__0", &[byte(0)]), vec![0, 0, 0, 0]);
}

#[test]
fn a_block_without_a_value_where_one_is_expected() {
    assert_eq!(error("fn main() -> i32 { }"), CompileErrorKind::Type(TypeError::UnexpectedType));
}

#[test]
fn pointers_are_eight_bytes() {
    assert_eq!(
        text("fn main(p: *u8) -> *u8 { p }"),
        "fn main__0: %_param_0 := (8 8) -> (8 8)\n    return %_param_0\nendfn"
    );
}

#[test]
fn an_if_in_the_place_of_a_value_needs_an_else() {
    assert_eq!(
        error("fn main(c: bool) -> i32 { let x = if c { 1 }; 0 }"),
        CompileErrorKind::Type(TypeError::UnexpectedType)
    );
    assert_eq!(
        lower_in("fn main(c: bool) -> i32 { let x: i32 = if c { 1 }; 0 }", Endianness::Little).err(),
        Some(CompileError {
            kind: CompileErrorKind::Type(TypeError::MissingElse),
            span: Span { start: 39, len: 10 },
        })
    );
    assert_eq!(
        error("fn main(c: bool) -> i32 { if c { 1 } }"),
        CompileErrorKind::Type(TypeError::MissingElse)
    );
    let src = "fn main(c: bool) -> i32 { let x: i32 = if c { 1 } else { 2 }; x }";
    assert_eq!(
        text(src),
        "fn main__0: %_param_0 := (1 1) -> (4 4)\n    %_v0 := alloc (4 4)\n    \
         %_v3 := unop not %_param_0\n    if %_v3 _l1\n    %_v4 := const 4 1 0 0 0\n    \
         store (4 4) %_v0 %_v4\n    jmp _l2\n    :_l1\n    %_v5 := const 4 2 0 0 0\n    \
         store (4 4) %_v0 %_v5\n    :_l2\n    %_v6 := load (4 4) %_v0\n    return %_v6\nendfn"
    );
    assert_eq!(run(src, "main__0", &[byte(1)]), vec![1, 0, 0, 0]);
    assert_eq!(run(src, "main__0", &[byte(0)]), vec![2, 0, 0, 0]);
    assert_eq!(
        error("fn main(c: bool) -> i32 { if c { 1 } else { true } }"),
        CompileErrorKind::Type(TypeError::UnexpectedType)
    );
}

#[test]
fn the_types_of_the_arguments_select_the_function() {
    let functions = "fn f(x: u8) -> i32 { 0 } fn f(x: u16) -> bool { true } ";
    let src = format!("{}fn main(a: u8, b: u16) -> i32 {{ let r: bool = f(b); f(a) }}", functions);
    assert_eq!(
        text(&src),
        "fn f__0: %_param_0 := (1 1) -> (4 4)\n    %_v0 := const 4 0 0 0 0\n    return %_v0\nendfn\n\n\
         fn f__1: %_param_0 := (2 2) -> (1 1)\n    %_v0 := const 1 1\n    return %_v0\nendfn\n\n\
         fn main__2: %_param_0 := (1 1) %_param_1 := (2 2) -> (4 4)\n    \
         %_v0 := call f__1 1 %_param_1\n    %_v1 := call f__0 1 %_param_0\n    return %_v1\nendfn"
    );
    let first = format!("{}fn main(a: u8) -> i32 {{ f(a) }}", functions);
    assert_eq!(run(&first, "main__2", &[byte(5)]), vec![0, 0, 0, 0]);
    let second = format!("{}fn main(b: u16) -> bool {{ f(b) }}", functions);
    assert_eq!(run(&second, "main__2", &[IRInterpreterValue::from_u16(5)]), vec![1]);
    // The value of the first has another type than is expected here.
    let wrong = format!("{}fn main(a: u8) -> bool {{ f(a) }}", functions);
    assert!(lower_in(&wrong, Endianness::Little).is_err());
}

#[test]
fn a_call_that_several_functions_fit_is_ambiguous() {
    let ambiguous = CompileErrorKind::Overload(OverloadError::Ambiguous);
    assert_eq!(
        error("fn f(x: u8) -> i32 { 0 } fn f(x: u16) -> bool { true } fn main() -> i32 { f(1) }"),
        ambiguous
    );
    assert_eq!(
        error("fn f(x: u8) -> i32 { 0 } fn f(x: u8) -> i32 { 1 } fn main(a: u8) -> i32 { f(a) }"),
        ambiguous
    );
    // The order of the functions does not matter.
    assert_eq!(
        error("fn f(x: u16) -> bool { true } fn f(x: u8) -> i32 { 0 } fn main() -> i32 { f(1) }"),
        ambiguous
    );
    let src = "fn f(x: u16) -> bool { true } fn f(x: u8) -> i32 { 7 } fn main(a: u8) -> i32 { f(a) }";
    assert_eq!(run(src, "main__2", &[byte(5)]), vec![7, 0, 0, 0]);
}

#[test]
fn a_function_is_known_behind_its_definition() {
    let src = "fn h() -> i32 { 5 } fn g() -> i32 { h() } fn main() -> i32 { g() }";
    assert_eq!(run(src, "main__2", &[]), vec![5, 0, 0, 0]);
    assert_eq!(
        error("fn g() -> i32 { h() } fn h() -> i32 { 5 } fn main() -> i32 { g() }"),
        CompileErrorKind::Overload(OverloadError::NoMatch)
    );
}

#[test]
fn types_that_do_not_fit() {
    let unexpected = CompileErrorKind::Type(TypeError::UnexpectedType);
    let mismatch = CompileErrorKind::Type(TypeError::OperatorMismatch);
    assert_eq!(error("fn main() -> bool { 1 }"), unexpected);
    assert_eq!(error("fn main() -> i32 { true }"), unexpected);
    assert_eq!(error("fn main(a: u8, b: u16) -> u8 { a + b }"), unexpected);
    assert_eq!(error("fn main(n: u8) -> u8 { let i: *u8 = n; n }"), unexpected);
    assert_eq!(error("fn main(a: bool) -> bool { -a }"), mismatch);
    assert_eq!(error("fn main(a: u8) -> u8 { -a }"), mismatch);
    // A number with a sign before it is the negation of a number.
    assert_eq!(error("fn main() -> i8 { -128 }"), CompileErrorKind::Type(TypeError::LiteralOverflow));
    assert_eq!(run("fn main() -> i8 { -127 }", "main__0", &[]), vec![129]);
}

#[test]
fn templates_and_their_arguments() {
    assert_eq!(
        error("template<T> struct V { x: T } fn main(a: V) -> i32 { 0 }"),
        CompileErrorKind::Resolve(ResolveError::GenericArity)
    );
    assert_eq!(
        error("template<T> struct V { x: T } fn main(a: V<u8, u8>) -> i32 { 0 }"),
        CompileErrorKind::Template(TemplateError::ArityMismatch)
    );
    assert_eq!(
        error("fn main(a: W<u8>) -> i32 { 0 }"),
        CompileErrorKind::Resolve(ResolveError::UnknownTemplate)
    );
    // A template within a template within a template, and so on.
    let src = "template<T> struct V { x: T, y: T } fn main(a: V<V<V<u8>>>) -> i32 { 0 }";
    let (module, interner) = lower(src);
    assert_eq!(function(&module, &interner, "main__0").params[0].1, IRType { size: 8, align: 1 });
}

#[test]
fn structures_have_their_layout() {
    let src = "struct S { a: u8, b: u32, c: u8 } fn main(s: S) -> i32 { 0 }";
    let (module, interner) = lower(src);
    assert_eq!(function(&module, &interner, "main__0").params[0].1, IRType { size: 12, align: 4 });
    // A structure can be used before it is defined.
    let src = "struct A { b: B, x: u8 } struct B { y: u16 } fn main(a: A) -> i32 { 0 }";
    let (module, interner) = lower(src);
    assert_eq!(function(&module, &interner, "main__0").params[0].1, IRType { size: 4, align: 2 });
    assert_eq!(
        lower_in("struct S { s: S } fn main() -> i32 { 0 }", Endianness::Little).err(),
        Some(CompileError {
            kind: CompileErrorKind::Layout(LayoutError::Cyclic),
            span: Span { start: 0, len: 0 },
        })
    );
}

#[test]
fn more_constructs_that_are_not_lowered() {
    assert_eq!(error("fn main() -> i32 { for i in x { } }"), CompileErrorKind::NotImplemented);
    assert_eq!(error("fn main(a: i32) -> i32 { a = 1 }"), CompileErrorKind::NotImplemented);
    assert_eq!(error("fn main() -> i32 { let x: i32; 0 }"), CompileErrorKind::NotImplemented);
}

#[test]
fn a_template_that_refers_to_itself() {
    // With the same arguments it finds what it gives for them.
    let src = "template<T> struct P { a: T, b: *P<T> } fn main(a: P<u8>, b: P<u64>) -> i32 { 0 }";
    let (module, interner) = lower(src);
    let main = function(&module, &interner, "main__0");
    assert_eq!(main.params[0].1, IRType { size: 16, align: 8 });
    assert_eq!(main.params[1].1, IRType { size: 16, align: 8 });
    let src = "template<T> fn f() -> i32 { f::<T>() } fn main() -> i32 { f::<u8>() }";
    assert_eq!(lower(src).0.items.len(), 2);
    // With other arguments every time it does not come to an end.
    let deep = CompileErrorKind::Template(TemplateError::DepthExceeded);
    assert_eq!(error("template<T> struct L { next: L<*T> } fn main(a: L<u8>) -> i32 { 0 }"), deep);
    assert_eq!(
        error("template<T> fn f() -> i32 { f::<*T>() } fn main() -> i32 { f::<u8>() }"),
        deep
    );
    // Within the limit templates may lie in templates.
    let src = "template<T> struct V { x: T, y: T } fn main(a: V<V<V<u8>>>) -> i32 { 0 }";
    let deep_enough = |depth: usize| {
        let mut interner = StringInterner::new();
        let module = parse_source(src, &mut interner).unwrap();
        Lowerer::with(interner, Endianness::Little, depth).process_module(&module).map(|_| ())
    };
    assert_eq!(deep_enough(64), Ok(()));
    assert_eq!(deep_enough(0).map_err(|e| e.kind), Err(deep));
}

#[test]
fn branches_with_values_of_different_types() {
    let mut lowerer = Lowerer::with(StringInterner::new(), Endianness::Little, 64);
    let mut context = CodegenContext::new(Ty::from_primitive(TyPrimitive::Void));
    let value = |index: u64, primitive: TyPrimitive| {
        CompilationResult::Value(Value::new_direct(Symbol { index }, Ty::from_primitive(primitive)))
    };
    let span = Span { start: 3, len: 4 };
    let merged = lowerer.compile_merge_branches(
        &mut context,
        None,
        None,
        &value(0, TyPrimitive::U8),
        &value(1, TyPrimitive::I8),
        span,
    );
    assert_eq!(
        merged.err(),
        Some(CompileError { kind: CompileErrorKind::Type(TypeError::BranchMismatch), span })
    );
    let merged = lowerer.compile_merge_branches(
        &mut context,
        None,
        None,
        &value(0, TyPrimitive::U8),
        &value(1, TyPrimitive::U8),
        span,
    );
    assert!(matches!(merged, Ok(CompilationResult::Value(Value { id: None, .. }))));
    let merged = lowerer.compile_merge_branches(
        &mut context,
        None,
        None,
        &CompilationResult::Returning,
        &CompilationResult::Returning,
        span,
    );
    assert!(matches!(merged, Ok(CompilationResult::Returning)));
}

#[test]
fn a_number_that_does_not_fit_adds_nothing() {
    let mut lowerer = Lowerer::with(StringInterner::new(), Endianness::Little, 64);
    let mut context = CodegenContext::new(Ty::from_primitive(TyPrimitive::I8));
    let span = Span { start: 0, len: 3 };
    let small = Ty::from_primitive(TyPrimitive::I8);
    let failed = lowerer.compile_integer(&mut context, 128, Some(&small), span);
    assert_eq!(
        failed.err(),
        Some(CompileError { kind: CompileErrorKind::Type(TypeError::LiteralOverflow), span })
    );
    assert!(context.comps.is_empty());
    assert_eq!(context.counter, 0);
    assert_eq!(lowerer.interner.len(), 0);
    let truth = Ty::from_primitive(TyPrimitive::Bool);
    assert!(lowerer.compile_integer(&mut context, 1, Some(&truth), span).is_err());
    assert!(context.comps.is_empty());
    let lowered = lowerer.compile_integer(&mut context, 127, Some(&small), span);
    assert!(lowered.is_ok());
    assert_eq!(context.comps.len(), 1);
    assert_eq!(
        format!("{:?}", context.comps[0].kind),
        "Constant(IRCompConstant { bytes: [127] })"
    );
    assert_eq!(context.counter, 1);
    assert_eq!(lowerer.interner.lookup("_v0"), context.comps[0].id);
}
