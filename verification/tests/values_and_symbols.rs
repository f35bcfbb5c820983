use solidc::globals::{StringInterner, Symbol};
use solidc::ir::interpreter::bytes::{decode_uint, encode_uint, reversed, Endianness};
use solidc::ir::interpreter::value::IRInterpreterValue;

#[test]
fn a_string_has_one_symbol() {
    let mut interner = StringInterner::new();
    assert_eq!(interner.len(), 0);
    let a = interner.intern("alpha");
    let b = interner.intern("beta");
    assert_ne!(a, b);
    assert_eq!(interner.intern("alpha"), a);
    assert_eq!(interner.len(), 2);
    assert_eq!(a, Symbol { index: 0 });
    assert_eq!(b, Symbol { index: 1 });
    assert_eq!(interner.get(&a).as_deref(), Some("alpha"));
    assert_eq!(interner.get(&b).as_deref(), Some("beta"));
    assert_eq!(interner.get(&Symbol { index: 2 }), None);
    assert_eq!(interner.lookup("beta"), Some(b));
    assert_eq!(interner.lookup("gamma"), None);
    assert!(interner.has_room());
    assert_eq!(interner.try_intern("gamma"), Some(Symbol { index: 2 }));
    assert_eq!(interner.try_intern("alpha"), Some(a));
}

#[test]
fn the_empty_string_and_strings_of_any_characters_are_interned() {
    let mut interner = StringInterner::new();
    let empty = interner.intern("");
    let other = interner.intern("é ü\n");
    assert_eq!(interner.get(&empty).as_deref(), Some(""));
    assert_eq!(interner.get(&other).as_deref(), Some("é ü\n"));
}

#[test]
fn a_copy_of_an_interner_goes_its_own_way() {
    let mut interner = StringInterner::new();
    let a = interner.intern("a");
    let mut copy = interner.clone();
    let b = copy.intern("b");
    assert_eq!(copy.get(&a).as_deref(), Some("a"));
    assert_eq!(copy.len(), 2);
    assert_eq!(interner.len(), 1);
    assert_eq!(interner.get(&b), None);
}

#[test]
fn numbers_in_both_byte_orders() {
    assert_eq!(encode_uint(0x0102_0304, 4, Endianness::Little), vec![4, 3, 2, 1]);
    assert_eq!(encode_uint(0x0102_0304, 4, Endianness::Big), vec![1, 2, 3, 4]);
    // Only the lowest bytes are kept.
    assert_eq!(encode_uint(0x0102_0304, 2, Endianness::Little), vec![4, 3]);
    assert_eq!(encode_uint(0x0102_0304, 2, Endianness::Big), vec![3, 4]);
    assert_eq!(encode_uint(7, 0, Endianness::Big), Vec::<u8>::new());
    assert_eq!(decode_uint(&vec![4, 3, 2, 1], Endianness::Little), 0x0102_0304);
    assert_eq!(decode_uint(&vec![4, 3, 2, 1], Endianness::Big), 0x0403_0201);
    assert_eq!(decode_uint(&vec![], Endianness::Big), 0);
    assert_eq!(decode_uint(&vec![255; 8], Endianness::Little), u64::MAX);
    assert_eq!(reversed(&vec![1, 2, 3]), vec![3, 2, 1]);
}

#[test]
fn the_byte_order_of_the_machine() {
    let expected = if u16::from_ne_bytes([1, 0]) == 1 { Endianness::Little } else { Endianness::Big };
    assert_eq!(Endianness::host(), expected);
    assert_eq!(Endianness::from_first_byte(1), Endianness::Little);
    assert_eq!(Endianness::from_first_byte(0), Endianness::Big);
}

#[test]
fn values_of_signed_numbers() {
    assert_eq!(IRInterpreterValue::from_int(-1, 1, Endianness::Little).bytes, vec![255]);
    assert_eq!(IRInterpreterValue::from_int(-2, 2, Endianness::Big).bytes, vec![255, 254]);
    assert_eq!(IRInterpreterValue::from_int(-128, 1, Endianness::Big).bytes, vec![128]);
    assert_eq!(
        IRInterpreterValue::from_int(i64::MIN, 8, Endianness::Big).bytes,
        vec![128, 0, 0, 0, 0, 0, 0, 0]
    );
    assert_eq!(IRInterpreterValue { bytes: vec![255, 254] }.into_int(Endianness::Big), -2);
    assert_eq!(IRInterpreterValue { bytes: vec![255, 254] }.into_int(Endianness::Little), -257);
    assert_eq!(IRInterpreterValue { bytes: vec![127] }.into_int(Endianness::Little), 127);
    assert_eq!(IRInterpreterValue { bytes: vec![1, 0] }.into_uint(Endianness::Big), 256);
}

#[test]
fn values_of_the_integer_types() {
    assert_eq!(IRInterpreterValue::from_u8(200).into_u8(), 200);
    assert_eq!(IRInterpreterValue::from_i8(-100).into_i8(), -100);
    assert_eq!(IRInterpreterValue::from_u16(50_000).into_u16(), 50_000);
    assert_eq!(IRInterpreterValue::from_i16(-30_000).into_i16(), -30_000);
    assert_eq!(IRInterpreterValue::from_u32(4_000_000_000).into_u32(), 4_000_000_000);
    assert_eq!(IRInterpreterValue::from_i32(-2_000_000_000).into_i32(), -2_000_000_000);
    assert_eq!(IRInterpreterValue::from_u64(u64::MAX).into_u64(), u64::MAX);
    assert_eq!(IRInterpreterValue::from_i64(i64::MIN).into_i64(), i64::MIN);
    assert_eq!(IRInterpreterValue::from_u32(0x0102_0304).bytes, 0x0102_0304u32.to_ne_bytes().to_vec());
    assert_eq!(IRInterpreterValue::from_i16(-2).bytes, (-2i16).to_ne_bytes().to_vec());
    assert_eq!(IRInterpreterValue::from_u8(7).bytes, vec![7]);
    assert_eq!(IRInterpreterValue { bytes: vec![1, 2, 3] }.prefix(2).bytes, vec![1, 2]);
}
