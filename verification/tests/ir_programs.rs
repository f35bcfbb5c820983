use solidc::globals::{StringInterner, Symbol};
use solidc::ir::assembly::assembler::assemble_ir_module;
use solidc::ir::assembly::{assembly_for_ir_item, assembly_for_ir_modules};
use solidc::ir::comp::{IRComp, IRCompKind};
use solidc::ir::interpreter::bytes::Endianness;
use solidc::ir::interpreter::semantics::{IRInterpreterError, IRInterpreterLimits};
use solidc::ir::interpreter::value::IRInterpreterValue;
use solidc::ir::interpreter::IRInterpreter;
use solidc::ir::{IRItem, IRItemFunctionDef, IRItemKind, IRModule, IRType, IRValue};

fn limits() -> IRInterpreterLimits {
    IRInterpreterLimits { max_frames: 16, max_values: 1024, max_memory: 4096, max_steps: 10_000 }
}

fn run_with(
    src: &str,
    name: &str,
    args: &[IRInterpreterValue],
    endian: Endianness,
    limits: IRInterpreterLimits,
) -> Result<Vec<u8>, IRInterpreterError> {
    let mut interner = StringInterner::new();
    let module = assemble_ir_module(src, &mut interner).unwrap();
    let mut interpreter = IRInterpreter::with(endian, limits);
    interpreter.load_module(module);
    let name = interner.intern(name);
    interpreter.call_function(name, args).map(|value| value.bytes)
}

fn run(src: &str, name: &str, args: &[IRInterpreterValue]) -> Result<Vec<u8>, IRInterpreterError> {
    run_with(src, name, args, Endianness::Little, limits())
}

fn binary(operator: &str, width: usize, a: u64, b: u64) -> Result<Vec<u8>, IRInterpreterError> {
    let src = format!(
        "fn f: %a := ({w} {w}) %b := ({w} {w}) -> ({w} {w})\n %c := binop {o} %a %b\n return %c\nendfn",
        w = width,
        o = operator
    );
    run(
        &src,
        "f",
        &[
            IRInterpreterValue::from_uint(a, width, Endianness::Little),
            IRInterpreterValue::from_uint(b, width, Endianness::Little),
        ],
    )
}

fn unary(operator: &str, width: usize, a: u64) -> Result<Vec<u8>, IRInterpreterError> {
    let src = format!(
        "fn f: %a := ({w} {w}) -> ({w} {w})\n %c := unop {o} %a\n return %c\nendfn",
        w = width,
        o = operator
    );
    run(&src, "f", &[IRInterpreterValue::from_uint(a, width, Endianness::Little)])
}

#[test]
fn arithmetic_wraps_around() {
    assert_eq!(binary("+", 1, 200, 100), Ok(vec![44]));
    assert_eq!(binary("-", 1, 1, 2), Ok(vec![255]));
    assert_eq!(binary("*", 1, 16, 16), Ok(vec![0]));
    assert_eq!(binary("+", 2, 0xffff, 2), Ok(vec![1, 0]));
    assert_eq!(binary("*", 4, 0x10000, 0x10001), Ok(vec![0, 0, 1, 0]));
    assert_eq!(binary("-", 8, 0, 1), Ok(vec![255; 8]));
    assert_eq!(binary("/", 1, 7, 2), Ok(vec![3]));
    assert_eq!(binary("mod", 1, 7, 2), Ok(vec![1]));
}

#[test]
fn division_by_zero_is_an_error() {
    assert_eq!(binary("/", 4, 7, 0), Err(IRInterpreterError::DivisionByZero));
    assert_eq!(binary("mod", 1, 7, 0), Err(IRInterpreterError::DivisionByZero));
}

#[test]
fn bits_and_shifts() {
    assert_eq!(binary("&", 1, 0b1100, 0b1010), Ok(vec![0b1000]));
    assert_eq!(binary("|", 1, 0b1100, 0b1010), Ok(vec![0b1110]));
    assert_eq!(binary("<<", 1, 1, 7), Ok(vec![128]));
    assert_eq!(binary("<<", 1, 3, 7), Ok(vec![128]));
    assert_eq!(binary(">>", 2, 0x8000, 15), Ok(vec![1, 0]));
    assert_eq!(binary("<<", 1, 1, 8), Err(IRInterpreterError::InvalidShift));
    assert_eq!(binary(">>", 4, 1, 32), Err(IRInterpreterError::InvalidShift));
}

#[test]
fn comparisons_give_one_byte() {
    assert_eq!(binary("==", 4, 5, 5), Ok(vec![1]));
    assert_eq!(binary("!=", 4, 5, 5), Ok(vec![0]));
    assert_eq!(binary(">", 2, 300, 200), Ok(vec![1]));
    assert_eq!(binary("<", 2, 300, 200), Ok(vec![0]));
    assert_eq!(binary(">=", 8, 7, 7), Ok(vec![1]));
    assert_eq!(binary("<=", 1, 8, 7), Ok(vec![0]));
}

#[test]
fn unary_operations() {
    assert_eq!(unary("not", 1, 0), Ok(vec![1]));
    assert_eq!(unary("not", 1, 1), Ok(vec![0]));
    assert_eq!(unary("not", 1, 7), Ok(vec![0]));
    assert_eq!(unary("neg", 1, 1), Ok(vec![255]));
    assert_eq!(unary("neg", 2, 0), Ok(vec![0, 0]));
    assert_eq!(unary("neg", 4, 0x8000_0000), Ok(vec![0, 0, 0, 0x80]));
    assert_eq!(unary("bitnot", 1, 0b1010_0101), Ok(vec![0b0101_1010]));
    assert_eq!(unary("bitnot", 2, 0), Ok(vec![255, 255]));
}

#[test]
fn operands_of_different_widths_give_nothing() {
    let src = "fn f: %a := (1 1) %b := (2 2) -> (1 1)\n %c := binop + %a %b\n return %c\nendfn";
    let args = [IRInterpreterValue::from_u8(1), IRInterpreterValue::from_u16(2)];
    assert_eq!(run(src, "f", &args), Ok(vec![]));
}

#[test]
fn byte_order_of_numbers() {
    let src = "fn f: %a := (2 2) %b := (2 2) -> (2 2)\n %c := binop + %a %b\n return %c\nendfn";
    let little = [
        IRInterpreterValue::from_uint(0x01ff, 2, Endianness::Little),
        IRInterpreterValue::from_uint(1, 2, Endianness::Little),
    ];
    assert_eq!(run_with(src, "f", &little, Endianness::Little, limits()), Ok(vec![0x00, 0x02]));
    let big = [
        IRInterpreterValue::from_uint(0x01ff, 2, Endianness::Big),
        IRInterpreterValue::from_uint(1, 2, Endianness::Big),
    ];
    assert_eq!(run_with(src, "f", &big, Endianness::Big, limits()), Ok(vec![0x02, 0x00]));
}

#[test]
fn memory_is_written_and_read() {
    let src = "\
fn f: -> (2 1)
    %c := const 2 1 2
    %d := const 1 9
    %p := alloc (4 1)
    store (2 1) %p %c
    offsetstore (1 1) %p %d 3
    offsetstore (1 1) %p %d 1
    %v := load (2 1) %p
    %w := offsetload (1 1) %p 3
    %s := binop + %d %w
    return %v
endfn";
    assert_eq!(run(src, "f", &[]), Ok(vec![1, 9]));
}

#[test]
fn an_access_outside_the_memory_is_an_error() {
    let src = "fn f: -> (1 1)\n %p := alloc (1 1)\n %v := offsetload (1 1) %p 1\n return %v\nendfn";
    assert_eq!(run(src, "f", &[]), Err(IRInterpreterError::InvalidAccess));
    let src = "fn f: -> (1 1)\n %p := alloc (1 1)\n %c := const 2 0 0\n store (2 1) %p %c\nendfn";
    assert_eq!(run(src, "f", &[]), Err(IRInterpreterError::InvalidAccess));
}

#[test]
fn a_value_that_is_no_address_is_an_error() {
    let src = "fn f: %a := (1 1) -> (1 1)\n %v := load (1 1) %a\n return %v\nendfn";
    assert_eq!(
        run(src, "f", &[IRInterpreterValue::from_u8(0)]),
        Err(IRInterpreterError::InvalidOperand)
    );
}

#[test]
fn calls_hand_over_their_arguments() {
    let src = "\
fn add: %a := (1 1) %b := (1 1) -> (1 1)
    %c := binop + %a %b
    return %c
endfn

fn twice: %x := (1 1) -> (1 1)
    %y := call add 2 %x %x
    %z := call add 2 %y %x
    return %z
endfn";
    assert_eq!(run(src, "twice", &[IRInterpreterValue::from_u8(5)]), Ok(vec![15]));
}

#[test]
fn a_function_without_return_gives_nothing() {
    let src = "fn f: -> (0 1)\n %c := const 1 1\nendfn";
    assert_eq!(run(src, "f", &[]), Ok(vec![]));
    assert_eq!(IRInterpreterValue::void().bytes, Vec::<u8>::new());
}

#[test]
fn conditional_jumps_look_at_the_first_byte() {
    let src = "\
fn f: %c := (2 2) -> (1 1)
    %one := const 1 1
    %zero := const 1 0
    if %c yes
    return %zero
    :yes
    return %one
endfn";
    let call = |bytes: Vec<u8>| run(src, "f", &[IRInterpreterValue { bytes }]);
    assert_eq!(call(vec![0, 1]), Ok(vec![0]));
    assert_eq!(call(vec![1, 0]), Ok(vec![1]));
    assert_eq!(call(vec![255, 0]), Ok(vec![1]));
}

#[test]
fn labels_can_be_numbers() {
    let src = "\
fn f: -> (1 1)
    %one := const 1 1
    jmp 7
    %two := const 1 2
    return %two
    :end
    return %one
endfn";
    let mut interner = StringInterner::new();
    // The label `7` is referred to and never defined.
    let module = assemble_ir_module(src, &mut interner).unwrap();
    let mut interpreter = IRInterpreter::with(Endianness::Little, limits());
    interpreter.load_module(module);
    let name = interner.intern("f");
    assert_eq!(interpreter.call_function(name, &[]).unwrap_err(), IRInterpreterError::UnknownLabel);
}

#[test]
fn errors_of_a_run() {
    assert_eq!(
        run("fn f: -> (1 1)\n return %x\nendfn", "f", &[]),
        Err(IRInterpreterError::UnknownValue)
    );
    assert_eq!(
        run("fn f: -> (1 1)\n jmp nowhere\nendfn", "f", &[]),
        Err(IRInterpreterError::UnknownLabel)
    );
    assert_eq!(
        run("fn f: -> (1 1)\n %x := call g 0\nendfn", "f", &[]),
        Err(IRInterpreterError::UnknownFunction)
    );
    assert_eq!(
        run("fn f: %a := (1 1) -> (1 1)\n return %a\nendfn", "f", &[]),
        Err(IRInterpreterError::ArgumentCount)
    );
    assert_eq!(
        run("fn g: %a := (1 1) -> (1 1)\n return %a\nendfn fn f: -> (1 1)\n %x := call g 0\nendfn", "f", &[]),
        Err(IRInterpreterError::ArgumentCount)
    );
}

#[test]
fn a_run_stays_within_its_limits() {
    let forever = "fn f: -> (1 1)\n :again\n jmp again\nendfn";
    assert_eq!(run(forever, "f", &[]), Err(IRInterpreterError::StepLimit));

    let deep = "fn f: -> (1 1)\n %x := call f 0\n return %x\nendfn";
    assert_eq!(run(deep, "f", &[]), Err(IRInterpreterError::StackExhausted));

    let greedy = "fn f: -> (1 1)\n :again\n %p := alloc (1024 1)\n jmp again\nendfn";
    assert_eq!(run(greedy, "f", &[]), Err(IRInterpreterError::StackExhausted));
}

const EVERY_KIND: &str = "\
fn every: %a := (1 1) (4 4) -> (1 1)
    :start
    %c := const 3 0 128 255
    %e := const 0
    %p := alloc (8 8)
    store (1 1) %p %a
    %l := load (1 1) %p
    offsetstore (1 1) %p %l 7
    %o := offsetload (1 1) %p 7
    %n := unop not %o
    %m := unop neg %o
    %b := unop bitnot %o
    %s := binop + %n %m
    %t := binop mod %s %b
    %u := binop << %s %b
    %r := call every 2 %a %c
    call every 0
    if %n start
    :one
    :two
    jmp 12
    return %t
    :end
endfn

fn empty: -> (0 1)
endfn";

#[test]
fn what_is_written_is_read_back() {
    let mut interner = StringInterner::new();
    let module = assemble_ir_module(EVERY_KIND, &mut interner).unwrap();
    let written = assembly_for_ir_modules(&module, &interner).unwrap();
    assert_eq!(written, EVERY_KIND);
    let names = interner.len();
    let again = assemble_ir_module(&written, &mut interner).unwrap();
    assert_eq!(interner.len(), names);
    assert_eq!(again.items.len(), module.items.len());
    assert_eq!(assembly_for_ir_modules(&again, &interner).unwrap(), written);
}

#[test]
fn comments_and_spacing_do_not_matter() {
    let mut interner = StringInterner::new();
    let src = "; a comment\nfn   f :->(1   1);more\n\n\n%x:= const 1 5 return %x endfn ; the end";
    let module = assemble_ir_module(src, &mut interner).unwrap();
    assert_eq!(
        assembly_for_ir_modules(&module, &interner).unwrap(),
        "fn f: -> (1 1)\n    %x := const 1 5\n    return %x\nendfn"
    );
}

#[test]
fn the_assembler_says_what_it_expected() {
    let mut interner = StringInterner::new();
    let error = assemble_ir_module("fn f: -> (1 1)\n  bogus\nendfn", &mut interner).unwrap_err();
    assert_eq!(
        error.message,
        "Expected \"[Keyword(\"endfn\"), Kind(Colon), Kind(Percent), Keyword(\"call\"), \
         Keyword(\"binop\"), Keyword(\"unop\"), Keyword(\"const\"), Keyword(\"alloc\"), \
         Keyword(\"store\"), Keyword(\"load\"), Keyword(\"offsetstore\"), Keyword(\"offsetload\"), \
         Keyword(\"return\"), Keyword(\"if\"), Keyword(\"jmp\")]\" got \"bogus\""
    );
    assert_eq!(error.start, 17);
    assert_eq!(error.line, 1);

    let error = assemble_ir_module("endfn", &mut interner).unwrap_err();
    assert_eq!(error.message, "Expected \"[Keyword(\"fn\"), Kind(Eof)]\" got \"endfn\"");
    assert_eq!((error.start, error.line), (0, 0));
}

#[test]
fn numbers_have_to_fit() {
    let mut interner = StringInterner::new();
    let error =
        assemble_ir_module("fn f: -> (1 1)\n %c := const 1 256\nendfn", &mut interner).unwrap_err();
    assert_eq!(error.message, "Expected integer to fit into 8 bits");
    assert_eq!((error.start, error.line), (30, 1));

    let error = assemble_ir_module("fn f: -> (18446744073709551616 1) endfn", &mut interner)
        .unwrap_err();
    assert_eq!(error.message, "Expected integer to fit into 64 bits");

    assert!(assemble_ir_module("fn f: -> (18446744073709551615 1) endfn", &mut interner).is_ok());
}

#[test]
fn the_assembler_keeps_the_symbols_of_its_interner() {
    let mut interner = StringInterner::new();
    let f = interner.intern("f");
    let x = interner.intern("x");
    let module =
        assemble_ir_module("fn f: -> (1 1)\n %x := const 1 5\n return %x\nendfn", &mut interner)
            .unwrap();
    assert_eq!(interner.len(), 2);
    match &module.items[0].kind {
        IRItemKind::FunctionDef(function) => {
            assert_eq!(function.name, f);
            assert_eq!(function.comps[0].id, Some(x));
        }
    }
}

#[test]
fn a_function_with_an_unknown_symbol_cannot_be_written() {
    let mut interner = StringInterner::new();
    let name = interner.intern("f");
    let unknown = Symbol { index: 99 };
    let function = |value: Symbol, label_defs: Vec<(Symbol, u64)>| IRItem {
        kind: IRItemKind::FunctionDef(IRItemFunctionDef {
            name,
            return_type: IRType { size: 1, align: 1 },
            params: vec![(Some(name), IRType { size: 1, align: 1 })],
            comps: vec![IRComp { kind: IRCompKind::Return(IRValue { id: value }), id: None }],
            label_defs,
        }),
    };
    assert_eq!(
        assembly_for_ir_item(&function(name, vec![]), &interner).unwrap(),
        "fn f: %f := (1 1) -> (1 1)\n    return %f\nendfn"
    );
    assert_eq!(assembly_for_ir_item(&function(unknown, vec![]), &interner), None);
    // Labels have to be defined in the order of the computations.
    assert!(assembly_for_ir_item(&function(name, vec![(name, 1), (name, 0)]), &interner).is_none());
    assert!(assembly_for_ir_item(&function(name, vec![(name, 2)]), &interner).is_none());
    assert_eq!(
        assembly_for_ir_item(&function(name, vec![(name, 0), (name, 1)]), &interner).unwrap(),
        "fn f: %f := (1 1) -> (1 1)\n    :f\n    return %f\n    :f\nendfn"
    );
    let module = IRModule { items: vec![function(name, vec![]), function(unknown, vec![])] };
    assert_eq!(assembly_for_ir_modules(&module, &interner), None);
}

#[test]
fn a_name_that_is_no_word_cannot_be_written() {
    let mut interner = StringInterner::new();
    let function = |name: Symbol, value: Symbol, label: Symbol| IRItem {
        kind: IRItemKind::FunctionDef(IRItemFunctionDef {
            name,
            return_type: IRType { size: 1, align: 1 },
            params: vec![(Some(value), IRType { size: 1, align: 1 })],
            comps: vec![
                IRComp { kind: IRCompKind::Jmp(label), id: None },
                IRComp { kind: IRCompKind::Return(IRValue { id: value }), id: None },
            ],
            label_defs: vec![],
        }),
    };
    let f = interner.intern("f");
    let x = interner.intern("x");
    let number = interner.intern("12");
    let arrow = interner.intern("->x");
    let spaced = interner.intern("a b");
    let empty = interner.intern("");
    let operator = interner.intern("<=");
    assert_eq!(
        assembly_for_ir_item(&function(f, x, number), &interner).unwrap(),
        "fn f: %x := (1 1) -> (1 1)\n    jmp 12\n    return %x\nendfn"
    );
    assert!(assembly_for_ir_item(&function(operator, x, f), &interner).is_some());
    // Each of these would be read back as something else.
    assert_eq!(assembly_for_ir_item(&function(spaced, x, f), &interner), None);
    assert_eq!(assembly_for_ir_item(&function(f, number, f), &interner), None);
    assert_eq!(assembly_for_ir_item(&function(f, arrow, f), &interner), None);
    assert_eq!(assembly_for_ir_item(&function(f, empty, f), &interner), None);
    assert_eq!(assembly_for_ir_item(&function(f, x, spaced), &interner), None);
    let module = IRModule { items: vec![function(f, x, f), function(spaced, x, f)] };
    assert_eq!(assembly_for_ir_modules(&module, &interner), None);
}
