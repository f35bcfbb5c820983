//! The values that the interpreter computes on: plain byte strings.

use crate::ir::interpreter::bytes::{
    bytes_of_uint, decode_uint, encode_uint, lemma_pow256_values, pow256, signed_of,
    uint_of_bytes, unsigned_of, Endianness,
};
use vstd::prelude::*;

verus! {

#[derive(Debug)]
pub struct IRInterpreterValue {
    pub bytes: Vec<u8>,
}

impl View for IRInterpreterValue {
    type V = Seq<u8>;

    open spec fn view(&self) -> Seq<u8> {
        self.bytes@
    }
}

/// The byte strings of a sequence of values.
pub open spec fn values_view(values: Seq<IRInterpreterValue>) -> Seq<Seq<u8>> {
    values.map_values(|value: IRInterpreterValue| value@)
}

impl Clone for IRInterpreterValue {
    fn clone(&self) -> (r: Self)
        ensures
            r@ == self@,
    {
        let bytes = self.bytes.clone();
        assert(bytes@ =~= self.bytes@);
        Self { bytes }
    }
}

impl IRInterpreterValue {
    /// The value of no bytes.
    pub fn void() -> (r: Self)
        ensures
            r@ == Seq::<u8>::empty(),
    {
        Self { bytes: Vec::new() }
    }

    /// The `width` lowest bytes of `value` in the given byte order.
    pub fn from_uint(value: u64, width: usize, endian: Endianness) -> (r: Self)
        ensures
            r@ == bytes_of_uint(value as nat, width as nat, endian),
            r@.len() == width,
    {
        Self { bytes: encode_uint(value, width, endian) }
    }

    /// The unsigned number that the bytes hold in the given byte order.
    pub fn into_uint(&self, endian: Endianness) -> (r: u64)
        requires
            self@.len() <= 8,
        ensures
            r == uint_of_bytes(self@, endian),
    {
        decode_uint(&self.bytes, endian)
    }

    pub fn from_u8(value: u8) -> (r: Self)
        ensures
            r@ == seq![value],
    {
        let mut bytes = Vec::new();
        bytes.push(value);
        assert(bytes@ =~= seq![value]);
        Self { bytes }
    }

    pub fn into_u8(&self) -> (r: u8)
        requires
            self@.len() >= 1,
        ensures
            r == self@[0],
    {
        self.bytes[0]
    }
}

/// Whether the value is the number `number` in `width` bytes in one of the
/// two byte orders.
pub open spec fn holds_uint(bytes: Seq<u8>, number: nat, width: nat) -> bool {
    bytes == bytes_of_uint(number, width, Endianness::Little) || bytes == bytes_of_uint(
        number,
        width,
        Endianness::Big,
    )
}

/// Whether `number` is what the first `width` bytes hold in one of the two
/// byte orders.
pub open spec fn is_uint_of(number: nat, bytes: Seq<u8>, width: nat) -> bool {
    number == uint_of_bytes(bytes.take(width as int), Endianness::Little) || number
        == uint_of_bytes(bytes.take(width as int), Endianness::Big)
}

impl IRInterpreterValue {
    /// The bytes of the two's complement bit pattern of `value` in `width`
    /// bytes.
    pub fn from_int(value: i64, width: usize, endian: Endianness) -> (r: Self)
        requires
            width == 1 || width == 2 || width == 4 || width == 8,
            -(pow256(width as nat) / 2) <= value < pow256(width as nat) / 2,
        ensures
            r@ == bytes_of_uint(unsigned_of(value as int, width as nat), width as nat, endian),
            r@.len() == width,
    {
        proof {
            lemma_pow256_values();
        }
        let unsigned: u64 = if value >= 0 {
            value as u64
        } else if width == 1 {
            (value + 0x100) as u64
        } else if width == 2 {
            (value + 0x1_0000) as u64
        } else if width == 4 {
            (value + 0x1_0000_0000) as u64
        } else {
            (value as i128 + 0x1_0000_0000_0000_0000) as u64
        };
        Self::from_uint(unsigned, width, endian)
    }

    /// The signed number whose two's complement bit pattern the bytes are.
    pub fn into_int(&self, endian: Endianness) -> (r: i64)
        requires
            self@.len() == 1 || self@.len() == 2 || self@.len() == 4 || self@.len() == 8,
        ensures
            r == signed_of(uint_of_bytes(self@, endian), self@.len()),
    {
        proof {
            lemma_pow256_values();
            crate::ir::interpreter::bytes::lemma_bytes_of_uint_of_bytes(self@, endian);
        }
        let width = self.bytes.len();
        let unsigned = self.into_uint(endian);
        if width == 1 {
            if unsigned < 0x80 {
                unsigned as i64
            } else {
                unsigned as i64 - 0x100
            }
        } else if width == 2 {
            if unsigned < 0x8000 {
                unsigned as i64
            } else {
                unsigned as i64 - 0x1_0000
            }
        } else if width == 4 {
            if unsigned < 0x8000_0000 {
                unsigned as i64
            } else {
                unsigned as i64 - 0x1_0000_0000
            }
        } else {
            if unsigned < 0x8000_0000_0000_0000 {
                unsigned as i64
            } else {
                (unsigned as i128 - 0x1_0000_0000_0000_0000) as i64
            }
        }
    }

    /// The value of the first `count` bytes.
    pub fn prefix(&self, count: usize) -> (r: Self)
        requires
            count <= self@.len(),
        ensures
            r@ == self@.take(count as int),
    {
        let mut bytes: Vec<u8> = Vec::new();
        let mut i: usize = 0;
        while i < count
            invariant
                i <= count <= self.bytes.len(),
                bytes@ == self@.take(i as int),
            decreases count - i,
        {
            bytes.push(self.bytes[i]);
            i = i + 1;
            assert(self@.take(i as int) =~= self@.take(i - 1).push(self@[i - 1]));
        }
        Self { bytes }
    }

    /// The number in the byte order of the machine.
    pub fn from_i8(value: i8) -> (r: Self)
        ensures
            holds_uint(r@, unsigned_of(value as int, 1), 1),
    {
        proof {
            lemma_pow256_values();
        }
        Self::from_int(value as i64, 1, Endianness::host())
    }

    /// The number in the byte order of the machine.
    pub fn from_u16(value: u16) -> (r: Self)
        ensures
            holds_uint(r@, value as nat, 2),
    {
        Self::from_uint(value as u64, 2, Endianness::host())
    }

    /// The number in the byte order of the machine.
    pub fn from_i16(value: i16) -> (r: Self)
        ensures
            holds_uint(r@, unsigned_of(value as int, 2), 2),
    {
        proof {
            lemma_pow256_values();
        }
        Self::from_int(value as i64, 2, Endianness::host())
    }

    /// The number in the byte order of the machine.
    pub fn from_u32(value: u32) -> (r: Self)
        ensures
            holds_uint(r@, value as nat, 4),
    {
        Self::from_uint(value as u64, 4, Endianness::host())
    }

    /// The number in the byte order of the machine.
    pub fn from_i32(value: i32) -> (r: Self)
        ensures
            holds_uint(r@, unsigned_of(value as int, 4), 4),
    {
        proof {
            lemma_pow256_values();
        }
        Self::from_int(value as i64, 4, Endianness::host())
    }

    /// The number in the byte order of the machine.
    pub fn from_u64(value: u64) -> (r: Self)
        ensures
            holds_uint(r@, value as nat, 8),
    {
        Self::from_uint(value, 8, Endianness::host())
    }

    /// The number in the byte order of the machine.
    pub fn from_i64(value: i64) -> (r: Self)
        ensures
            holds_uint(r@, unsigned_of(value as int, 8), 8),
    {
        proof {
            lemma_pow256_values();
        }
        Self::from_int(value, 8, Endianness::host())
    }

    /// The first byte as a signed number.
    pub fn into_i8(&self) -> (r: i8)
        requires
            self@.len() >= 1,
        ensures
            r == signed_of(self@[0] as nat, 1),
    {
        proof {
            lemma_pow256_values();
        }
        let byte = self.bytes[0];
        if byte < 0x80 {
            byte as i8
        } else {
            (byte as i16 - 0x100) as i8
        }
    }

    /// The number that the first two bytes hold in the byte order of the
    /// machine.
    pub fn into_u16(&self) -> (r: u16)
        requires
            self@.len() >= 2,
        ensures
            is_uint_of(r as nat, self@, 2),
    {
        let first = self.prefix(2);
        proof {
            lemma_pow256_values();
            crate::ir::interpreter::bytes::lemma_bytes_of_uint_of_bytes(
                first@,
                Endianness::Little,
            );
            crate::ir::interpreter::bytes::lemma_bytes_of_uint_of_bytes(first@, Endianness::Big);
        }
        first.into_uint(Endianness::host()) as u16
    }

    /// The signed number that the first two bytes hold in the byte order
    /// of the machine.
    pub fn into_i16(&self) -> (r: i16)
        requires
            self@.len() >= 2,
        ensures
            exists|number: nat| is_uint_of(number, self@, 2) && r == signed_of(number, 2),
    {
        let first = self.prefix(2);
        let endian = Endianness::host();
        proof {
            lemma_pow256_values();
            crate::ir::interpreter::bytes::lemma_bytes_of_uint_of_bytes(first@, endian);
            assert(is_uint_of(uint_of_bytes(first@, endian), self@, 2));
        }
        first.into_int(endian) as i16
    }

    /// The number that the first four bytes hold in the byte order of the
    /// machine.
    pub fn into_u32(&self) -> (r: u32)
        requires
            self@.len() >= 4,
        ensures
            is_uint_of(r as nat, self@, 4),
    {
        let first = self.prefix(4);
        proof {
            lemma_pow256_values();
            crate::ir::interpreter::bytes::lemma_bytes_of_uint_of_bytes(
                first@,
                Endianness::Little,
            );
            crate::ir::interpreter::bytes::lemma_bytes_of_uint_of_bytes(first@, Endianness::Big);
        }
        first.into_uint(Endianness::host()) as u32
    }

    /// The signed number that the first four bytes hold in the byte order
    /// of the machine.
    pub fn into_i32(&self) -> (r: i32)
        requires
            self@.len() >= 4,
        ensures
            exists|number: nat| is_uint_of(number, self@, 4) && r == signed_of(number, 4),
    {
        let first = self.prefix(4);
        let endian = Endianness::host();
        proof {
            lemma_pow256_values();
            crate::ir::interpreter::bytes::lemma_bytes_of_uint_of_bytes(first@, endian);
            assert(is_uint_of(uint_of_bytes(first@, endian), self@, 4));
        }
        first.into_int(endian) as i32
    }

    /// The number that the first eight bytes hold in the byte order of the
    /// machine.
    pub fn into_u64(&self) -> (r: u64)
        requires
            self@.len() >= 8,
        ensures
            is_uint_of(r as nat, self@, 8),
    {
        let first = self.prefix(8);
        first.into_uint(Endianness::host())
    }

    /// The signed number that the first eight bytes hold in the byte order
    /// of the machine.
    pub fn into_i64(&self) -> (r: i64)
        requires
            self@.len() >= 8,
        ensures
            exists|number: nat| is_uint_of(number, self@, 8) && r == signed_of(number, 8),
    {
        let first = self.prefix(8);
        let endian = Endianness::host();
        proof {
            assert(is_uint_of(uint_of_bytes(first@, endian), self@, 8));
        }
        first.into_int(endian)
    }
}

} // verus!
