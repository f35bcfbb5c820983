//! Integers as the byte strings that the interpreter computes on.

use vstd::prelude::*;

verus! {

/// The order in which the bytes of an integer are stored.
#[derive(Debug, Clone, Copy, PartialEq, Eq, Structural)]
pub enum Endianness {
    /// Least significant byte first.
    Little,
    /// Most significant byte first.
    Big,
}

/// 256 to the power of `width`: the number of values that `width` bytes hold.
pub open spec fn pow256(width: nat) -> nat
    decreases width,
{
    if width == 0 {
        1
    } else {
        256 * pow256((width - 1) as nat)
    }
}

/// The number that `bytes` hold, least significant byte first.
pub open spec fn le_uint(bytes: Seq<u8>) -> nat
    decreases bytes.len(),
{
    if bytes.len() == 0 {
        0
    } else {
        bytes[0] as nat + 256 * le_uint(bytes.drop_first())
    }
}

/// The `width` lowest bytes of `value`, least significant byte first.
pub open spec fn le_bytes(value: nat, width: nat) -> Seq<u8>
    decreases width,
{
    if width == 0 {
        Seq::empty()
    } else {
        seq![(value % 256) as u8] + le_bytes(value / 256, (width - 1) as nat)
    }
}

/// The number that `bytes` hold in the given byte order.
pub open spec fn uint_of_bytes(bytes: Seq<u8>, endian: Endianness) -> nat {
    match endian {
        Endianness::Little => le_uint(bytes),
        Endianness::Big => le_uint(bytes.reverse()),
    }
}

/// The `width` lowest bytes of `value` in the given byte order.
pub open spec fn bytes_of_uint(value: nat, width: nat, endian: Endianness) -> Seq<u8> {
    match endian {
        Endianness::Little => le_bytes(value, width),
        Endianness::Big => le_bytes(value, width).reverse(),
    }
}

/// The unsigned number with the two's complement bit pattern of `value` in
/// `width` bytes.
pub open spec fn unsigned_of(value: int, width: nat) -> nat {
    if value >= 0 {
        value as nat
    } else {
        (value + pow256(width)) as nat
    }
}

/// The signed number whose two's complement bit pattern in `width` bytes is
/// the unsigned number `value`.
pub open spec fn signed_of(value: nat, width: nat) -> int {
    if 2 * value < pow256(width) {
        value as int
    } else {
        value - pow256(width)
    }
}

pub proof fn lemma_pow256_values()
    ensures
        pow256(0) == 1,
        pow256(1) == 0x100,
        pow256(2) == 0x1_0000,
        pow256(3) == 0x100_0000,
        pow256(4) == 0x1_0000_0000,
        pow256(5) == 0x100_0000_0000,
        pow256(6) == 0x1_0000_0000_0000,
        pow256(7) == 0x100_0000_0000_0000,
        pow256(8) == 0x1_0000_0000_0000_0000,
{
    reveal_with_fuel(pow256, 10);
}

pub proof fn lemma_le_bytes_len(value: nat, width: nat)
    ensures
        le_bytes(value, width).len() == width,
    decreases width,
{
    if width > 0 {
        lemma_le_bytes_len(value / 256, (width - 1) as nat);
    }
}

pub proof fn lemma_le_uint_bound(bytes: Seq<u8>)
    ensures
        le_uint(bytes) < pow256(bytes.len()),
    decreases bytes.len(),
{
    if bytes.len() > 0 {
        lemma_le_uint_bound(bytes.drop_first());
    }
}

/// Encoding a number that fits and reading the bytes back gives the number.
pub proof fn lemma_le_uint_of_le_bytes(value: nat, width: nat)
    requires
        value < pow256(width),
    ensures
        le_uint(le_bytes(value, width)) == value,
    decreases width,
{
    if width > 0 {
        let rest = le_bytes(value / 256, (width - 1) as nat);
        lemma_le_uint_of_le_bytes(value / 256, (width - 1) as nat);
        assert(le_bytes(value, width).drop_first() == rest);
    }
}

/// Reading bytes as a number and encoding it in as many bytes gives the
/// bytes back.
pub proof fn lemma_le_bytes_of_le_uint(bytes: Seq<u8>)
    ensures
        le_bytes(le_uint(bytes), bytes.len()) == bytes,
    decreases bytes.len(),
{
    if bytes.len() > 0 {
        lemma_le_bytes_of_le_uint(bytes.drop_first());
        let rest = le_uint(bytes.drop_first());
        assert((bytes[0] as nat + 256 * rest) % 256 == bytes[0] as nat);
        assert((bytes[0] as nat + 256 * rest) / 256 == rest);
        assert(le_bytes(le_uint(bytes), bytes.len()) =~= bytes);
    } else {
        assert(le_bytes(le_uint(bytes), bytes.len()) =~= bytes);
    }
}

/// In either byte order, the bytes of a number that fits hold that number,
/// and there are `width` of them.
pub proof fn lemma_uint_of_bytes_of_uint(value: nat, width: nat, endian: Endianness)
    requires
        value < pow256(width),
    ensures
        uint_of_bytes(bytes_of_uint(value, width, endian), endian) == value,
        bytes_of_uint(value, width, endian).len() == width,
{
    lemma_le_uint_of_le_bytes(value, width);
    lemma_le_bytes_len(value, width);
    let b = le_bytes(value, width);
    assert(b.reverse().reverse() =~= b);
}

/// In either byte order, bytes are the encoding of the number they hold.
pub proof fn lemma_bytes_of_uint_of_bytes(bytes: Seq<u8>, endian: Endianness)
    ensures
        bytes_of_uint(uint_of_bytes(bytes, endian), bytes.len(), endian) == bytes,
        uint_of_bytes(bytes, endian) < pow256(bytes.len()),
{
    lemma_le_bytes_of_le_uint(bytes);
    lemma_le_bytes_of_le_uint(bytes.reverse());
    lemma_le_uint_bound(bytes);
    lemma_le_uint_bound(bytes.reverse());
    assert(bytes.reverse().reverse() =~= bytes);
}

/// Trusted: `u16::to_ne_bytes` of the standard library, called on the
/// number one. It gives the two bytes of the number in the byte order of
/// the machine, so the byte that is one comes first or last.
#[verifier::external_body]
fn native_bytes_of_one() -> (bytes: [u8; 2])
    ensures
        (bytes@[0] == 1 && bytes@[1] == 0) || (bytes@[0] == 0 && bytes@[1] == 1),
{
    1u16.to_ne_bytes()
}

impl Endianness {
    /// The byte order that goes with the first byte of the number one as the
    /// machine stores it in two bytes.
    pub open spec fn of_first_byte(first: u8) -> Endianness {
        if first == 1 {
            Endianness::Little
        } else {
            Endianness::Big
        }
    }

    /// The byte order of the machine that runs this code.
    pub fn host() -> (endian: Endianness) {
        let bytes = native_bytes_of_one();
        Self::from_first_byte(bytes[0])
    }

    /// The byte order of a machine that stores `first` as the first of the
    /// two bytes of the number one.
    pub fn from_first_byte(first: u8) -> (endian: Endianness)
        ensures
            endian == Self::of_first_byte(first),
    {
        if first == 1 {
            Endianness::Little
        } else {
            Endianness::Big
        }
    }
}

/// The bytes in the opposite order.
pub fn reversed(bytes: &Vec<u8>) -> (r: Vec<u8>)
    ensures
        r@ == bytes@.reverse(),
{
    let mut r: Vec<u8> = Vec::new();
    let mut i: usize = bytes.len();
    while i > 0
        invariant
            i <= bytes.len(),
            r.len() == bytes.len() - i,
            forall|j: int| 0 <= j < r.len() ==> r@[j] == bytes@[bytes.len() - 1 - j],
        decreases i,
    {
        i = i - 1;
        r.push(bytes[i]);
    }
    assert(r@ =~= bytes@.reverse());
    r
}

/// Reads at most eight bytes as an unsigned number.
pub fn decode_uint(bytes: &Vec<u8>, endian: Endianness) -> (value: u64)
    requires
        bytes.len() <= 8,
    ensures
        value == uint_of_bytes(bytes@, endian),
{
    let ordered = match endian {
        Endianness::Little => reversed(bytes),
        Endianness::Big => {
            let twice = reversed(bytes);
            proof {
                assert(bytes@.reverse().reverse() =~= bytes@);
            }
            reversed(&twice)
        },
    };
    // `ordered` holds the most significant byte first.
    let ghost le = ordered@.reverse();
    proof {
        assert(bytes@.reverse().reverse() =~= bytes@);
        assert(le_uint(le) == uint_of_bytes(bytes@, endian));
        lemma_pow256_values();
    }
    let mut value: u64 = 0;
    let mut i: usize = 0;
    while i < ordered.len()
        invariant
            i <= ordered.len(),
            ordered.len() <= 8,
            le == ordered@.reverse(),
            value == le_uint(le.skip(le.len() - i)),
            value < pow256(i as nat),
        decreases ordered.len() - i,
    {
        proof {
            lemma_pow256_values();
            let cur = le.skip(le.len() - i - 1);
            assert(cur.drop_first() =~= le.skip(le.len() - i));
            assert(cur[0] == ordered@[i as int]);
            assert(pow256((i + 1) as nat) == 256 * pow256(i as nat));
            assert(pow256(i as nat) <= pow256(7)) by {
                lemma_pow256_monotonic(i as nat, 7);
            }
        }
        value = value * 256 + ordered[i] as u64;
        i = i + 1;
    }
    proof {
        assert(le.skip(0) =~= le);
    }
    value
}

pub proof fn lemma_pow256_monotonic(a: nat, b: nat)
    requires
        a <= b,
    ensures
        pow256(a) <= pow256(b),
        pow256(a) >= 1,
    decreases b,
{
    if a < b {
        lemma_pow256_monotonic(a, (b - 1) as nat);
    } else if a > 0 {
        lemma_pow256_monotonic((a - 1) as nat, (a - 1) as nat);
    }
}

/// Writes the `width` lowest bytes of `value`.
pub fn encode_uint(value: u64, width: usize, endian: Endianness) -> (bytes: Vec<u8>)
    ensures
        bytes@ == bytes_of_uint(value as nat, width as nat, endian),
        bytes.len() == width,
{
    let mut le: Vec<u8> = Vec::new();
    let mut rest: u64 = value;
    let mut i: usize = 0;
    while i < width
        invariant
            i <= width,
            le.len() == i,
            le@ + le_bytes(rest as nat, (width - i) as nat) == le_bytes(value as nat, width as nat),
        decreases width - i,
    {
        proof {
            let tail = le_bytes((rest / 256) as nat, (width - i - 1) as nat);
            assert(le_bytes(rest as nat, (width - i) as nat) == seq![(rest % 256) as u8] + tail);
            assert(le@.push((rest % 256) as u8) + tail =~= le@ + (seq![(rest % 256) as u8] + tail));
        }
        le.push((rest % 256) as u8);
        rest = rest / 256;
        i = i + 1;
    }
    proof {
        assert(le@ + le_bytes(rest as nat, 0) =~= le@);
        lemma_le_bytes_len(value as nat, width as nat);
    }
    match endian {
        Endianness::Little => le,
        Endianness::Big => reversed(&le),
    }
}

} // verus!
