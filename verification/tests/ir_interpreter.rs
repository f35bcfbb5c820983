use solidc::globals::StringInterner;
use solidc::ir::assembly::assembler::assemble_ir_module;
use solidc::ir::assembly::{assembly_for_ir_item, assembly_for_ir_modules};
use solidc::ir::interpreter::bytes::Endianness;
use solidc::ir::interpreter::semantics::{IRInterpreterError, IRInterpreterLimits};
use solidc::ir::interpreter::value::IRInterpreterValue;
use solidc::ir::interpreter::IRInterpreter;

const FIB: &str = "\
fn fib: %iterations := (1 1) -> (1 1)
    %constant_1 := const 1 1
    %constant_0 := const 1 0

    %sequence_numbers := alloc (2 1)
    %iterator := alloc (1 1)

    offsetstore (1 1) %sequence_numbers %constant_1 1
    offsetstore (1 1) %sequence_numbers %constant_0 0
    store (1 1) %iterator %constant_0

    ; While condition
    :while_condition

    %i := load (1 1) %iterator
    %comparison := binop >= %i %iterations
    if %comparison while_end

    ; While body

    %a := offsetload (1 1) %sequence_numbers 0
    %b := offsetload (1 1) %sequence_numbers 1
    %c := binop + %a %b
    offsetstore (1 1) %sequence_numbers %b 0
    offsetstore (1 1) %sequence_numbers %c 1

    %iplusplus := binop + %i %constant_1
    store (1 1) %iterator %iplusplus

    jmp while_condition

    ; While end
    :while_end

    %result := offsetload (1 1) %sequence_numbers 1
    return %result
endfn
";

fn limits() -> IRInterpreterLimits {
    IRInterpreterLimits { max_frames: 64, max_values: 1024, max_memory: 4096, max_steps: 100_000 }
}

fn fib(iterations: u8) -> Vec<u8> {
    let mut interner = StringInterner::new();
    let module = assemble_ir_module(FIB, &mut interner).unwrap();
    let mut interpreter = IRInterpreter::new();
    interpreter.load_module(module);
    let function_name = interner.intern("fib");
    interpreter
        .call_function(function_name, &[IRInterpreterValue::from_u8(iterations)])
        .unwrap()
        .bytes
}

// The function starts from the pair (0, 1) and steps `iterations` times from
// (a, b) to (b, a + b); it returns the second number of the pair.
#[test]
fn iterative_fibonacci() {
    assert_eq!(fib(0), vec![1]);
    assert_eq!(fib(1), vec![1]);
    assert_eq!(fib(2), vec![2]);
    assert_eq!(fib(9), vec![55]);
    assert_eq!(fib(10), vec![89]);
    // The additions wrap around at one byte: 233 + 144 = 377 = 256 + 121.
    assert_eq!(fib(12), vec![233]);
    assert_eq!(fib(13), vec![121]);
}

#[test]
fn fibonacci_in_both_byte_orders() {
    for endian in [Endianness::Little, Endianness::Big] {
        let mut interner = StringInterner::new();
        let module = assemble_ir_module(FIB, &mut interner).unwrap();
        let mut interpreter = IRInterpreter::with(endian, limits());
        interpreter.load_module(module);
        let function_name = interner.intern("fib");
        let returned = interpreter
            .call_function(function_name, &[IRInterpreterValue::from_u8(7)])
            .unwrap();
        assert_eq!(returned.bytes, vec![21]);
    }
}

#[test]
fn assembly_round_trip_of_fibonacci() {
    let mut interner = StringInterner::new();
    let module = assemble_ir_module(FIB, &mut interner).unwrap();
    let text = assembly_for_ir_modules(&module, &interner).unwrap();
    let again = assemble_ir_module(&text, &mut interner).unwrap();
    let text_again = assembly_for_ir_modules(&again, &interner).unwrap();
    assert_eq!(text, text_again);
    assert_eq!(module.items.len(), again.items.len());
    let first = assembly_for_ir_item(&module.items[0], &interner).unwrap();
    assert!(first.starts_with("fn fib: %iterations := (1 1) -> (1 1)\n    %constant_1 := const 1 1\n"));
    assert!(first.ends_with("\n    return %result\nendfn"));
    assert!(first.contains("\n    :while_condition\n    %i := load (1 1) %iterator\n"));
}

#[test]
fn unknown_function_is_an_error() {
    let mut interner = StringInterner::new();
    let interpreter = IRInterpreter::new();
    let name = interner.intern("missing");
    let result = interpreter.call_function(name, &[]);
    assert_eq!(result.unwrap_err(), IRInterpreterError::UnknownFunction);
}
