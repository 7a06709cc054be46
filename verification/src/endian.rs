//! Numbers as bytes in big-endian order, the order of every multi-byte field
//! that goes on the wire.

use vstd::arithmetic::div_mod::{
    lemma_div_denominator, lemma_fundamental_div_mod, lemma_fundamental_div_mod_converse,
};
use vstd::prelude::*;

verus! {

/// The four bytes of `value`, most significant first.
pub open spec fn be_bytes_u32(value: u32) -> Seq<u8> {
    seq![
        (value / 0x100_0000) as u8,
        (value / 0x1_0000 % 0x100) as u8,
        (value / 0x100 % 0x100) as u8,
        (value % 0x100) as u8,
    ]
}

/// The two bytes of `value`, most significant first.
pub open spec fn be_bytes_u16(value: u16) -> Seq<u8> {
    seq![(value / 0x100) as u8, (value % 0x100) as u8]
}

/// The number that `bytes` spell, most significant byte first.
pub open spec fn be_value(bytes: Seq<u8>) -> nat
    decreases bytes.len(),
{
    if bytes.len() == 0 {
        0
    } else {
        be_value(bytes.drop_last()) * 0x100 + bytes.last() as nat
    }
}

/// Puts two bytes together to a 16-bit number, `a` as the high-order byte.
pub fn tou16(a: u8, b: u8) -> (value: u16)
    ensures
        value == a * 0x100 + b,
        value == be_value(seq![a, b]),
{
    proof {
        be_value_unfold(seq![a, b], 2);
    }
    assert((a as u16) << 8 | b as u16 == a * 0x100 + b) by (bit_vector);
    (a as u16) << 8 | b as u16
}

/// Takes a 16-bit number apart into its high-order and its low-order byte.
pub fn to2u8(i: u16) -> (bytes: (u8, u8))
    ensures
        bytes.0 == i / 0x100,
        bytes.1 == i % 0x100,
        seq![bytes.0, bytes.1] == be_bytes_u16(i),
{
    assert(i >> 8 == i / 0x100 && i & 0xFF == i % 0x100 && i >> 8 < 0x100) by (bit_vector);
    assert(seq![(i / 0x100) as u8, (i % 0x100) as u8] =~= be_bytes_u16(i));
    ((i >> 8) as u8, (i & 0xFF) as u8)
}

/// Puts four bytes together to a 32-bit number, `a` as the highest-order
/// byte.
pub fn tou32(a: u8, b: u8, c: u8, d: u8) -> (value: u32)
    ensures
        value == a * 0x100_0000 + b * 0x1_0000 + c * 0x100 + d,
        value == be_value(seq![a, b, c, d]),
{
    proof {
        be_value_unfold(seq![a, b, c, d], 4);
    }
    tou16(a, b) as u32 * 0x1_0000 + tou16(c, d) as u32
}

/// Takes a 32-bit number apart into its four bytes, the highest-order byte
/// first.
pub fn to4u8(i: u32) -> (bytes: (u8, u8, u8, u8))
    ensures
        seq![bytes.0, bytes.1, bytes.2, bytes.3] == be_bytes_u32(i),
{
    let bytes = (
        (i / 0x100_0000) as u8,
        (i / 0x1_0000 % 0x100) as u8,
        (i / 0x100 % 0x100) as u8,
        (i % 0x100) as u8,
    );
    assert(seq![bytes.0, bytes.1, bytes.2, bytes.3] =~= be_bytes_u32(i));
    bytes
}

/// Reading back four big-endian bytes gives the number they were made from.
pub proof fn be_value_of_u32(value: u32)
    ensures
        be_bytes_u32(value).len() == 4,
        be_value(be_bytes_u32(value)) == value,
{
    let b = be_bytes_u32(value);
    be_value_unfold(b, 4);
    lemma_fundamental_div_mod(value as int, 0x100);
    lemma_fundamental_div_mod(value as int / 0x100, 0x100);
    lemma_fundamental_div_mod(value as int / 0x1_0000, 0x100);
    assert(value as int / 0x100 / 0x100 == value as int / 0x1_0000) by {
        lemma_div_denominator(value as int, 0x100, 0x100);
    }
    assert(value as int / 0x1_0000 / 0x100 == value as int / 0x100_0000) by {
        lemma_div_denominator(value as int, 0x1_0000, 0x100);
    }
}

/// Reading back two big-endian bytes gives the number they were made from.
pub proof fn be_value_of_u16(value: u16)
    ensures
        be_bytes_u16(value).len() == 2,
        be_value(be_bytes_u16(value)) == value,
{
    let b = be_bytes_u16(value);
    be_value_unfold(b, 2);
    lemma_fundamental_div_mod(value as int, 0x100);
}

/// Four bytes are the big-endian bytes of the number that they spell.
pub proof fn be_bytes_of_value_u32(bytes: Seq<u8>)
    requires
        bytes.len() == 4,
    ensures
        be_value(bytes) <= u32::MAX,
        be_bytes_u32(be_value(bytes) as u32) == bytes,
{
    be_value_unfold(bytes, 4);
    digits_of_u32(bytes[0] as int, bytes[1] as int, bytes[2] as int, bytes[3] as int);
    let value = be_value(bytes) as u32;
    let back = be_bytes_u32(value);
    assert(back[0] == bytes[0]);
    assert(back[1] == bytes[1]);
    assert(back[2] == bytes[2]);
    assert(back[3] == bytes[3]);
    assert(back =~= bytes);
}

/// Two bytes are the big-endian bytes of the number that they spell.
pub proof fn be_bytes_of_value_u16(bytes: Seq<u8>)
    requires
        bytes.len() == 2,
    ensures
        be_value(bytes) <= u16::MAX,
        be_bytes_u16(be_value(bytes) as u16) == bytes,
{
    be_value_unfold(bytes, 2);
    digits_of_u16(bytes[0] as int, bytes[1] as int);
    let value = be_value(bytes) as u16;
    let back = be_bytes_u16(value);
    assert(back[0] == bytes[0]);
    assert(back[1] == bytes[1]);
    assert(back =~= bytes);
}

/// The value of two or of four bytes, written out.
pub proof fn be_value_unfold(bytes: Seq<u8>, n: nat)
    requires
        bytes.len() == n,
        n == 2 || n == 4,
    ensures
        n == 2 ==> be_value(bytes) == bytes[0] * 0x100 + bytes[1],
        n == 4 ==> be_value(bytes) == bytes[0] * 0x100_0000 + bytes[1] * 0x1_0000 + bytes[2]
            * 0x100 + bytes[3],
        n == 2 ==> be_value(bytes) <= u16::MAX,
        n == 4 ==> be_value(bytes) <= u32::MAX,
{
    reveal_with_fuel(be_value, 5);
    if n == 2 {
        let b1 = bytes.drop_last();
        assert(b1.drop_last().len() == 0);
        assert(b1.last() == bytes[0]);
    } else {
        let b3 = bytes.drop_last();
        let b2 = b3.drop_last();
        let b1 = b2.drop_last();
        assert(b1.drop_last().len() == 0);
        assert(b1.last() == bytes[0]);
        assert(b2.last() == bytes[1]);
        assert(b3.last() == bytes[2]);
    }
}

/// The base-256 digits of a number that is given by four of them.
proof fn digits_of_u32(b0: int, b1: int, b2: int, b3: int)
    requires
        0 <= b0 < 0x100,
        0 <= b1 < 0x100,
        0 <= b2 < 0x100,
        0 <= b3 < 0x100,
    ensures
        (b0 * 0x100_0000 + b1 * 0x1_0000 + b2 * 0x100 + b3) / 0x100_0000 == b0,
        (b0 * 0x100_0000 + b1 * 0x1_0000 + b2 * 0x100 + b3) / 0x1_0000 % 0x100 == b1,
        (b0 * 0x100_0000 + b1 * 0x1_0000 + b2 * 0x100 + b3) / 0x100 % 0x100 == b2,
        (b0 * 0x100_0000 + b1 * 0x1_0000 + b2 * 0x100 + b3) % 0x100 == b3,
{
    let v = b0 * 0x100_0000 + b1 * 0x1_0000 + b2 * 0x100 + b3;
    lemma_fundamental_div_mod_converse(v, 0x100_0000, b0, b1 * 0x1_0000 + b2 * 0x100 + b3);
    lemma_fundamental_div_mod_converse(v, 0x1_0000, b0 * 0x100 + b1, b2 * 0x100 + b3);
    lemma_fundamental_div_mod_converse(b0 * 0x100 + b1, 0x100, b0, b1);
    lemma_fundamental_div_mod_converse(v, 0x100, b0 * 0x1_0000 + b1 * 0x100 + b2, b3);
    lemma_fundamental_div_mod_converse(b0 * 0x1_0000 + b1 * 0x100 + b2, 0x100, b0 * 0x100 + b1, b2);
}

/// The base-256 digits of a number that is given by two of them.
proof fn digits_of_u16(b0: int, b1: int)
    requires
        0 <= b0 < 0x100,
        0 <= b1 < 0x100,
    ensures
        (b0 * 0x100 + b1) / 0x100 == b0,
        (b0 * 0x100 + b1) % 0x100 == b1,
{
    lemma_fundamental_div_mod_converse(b0 * 0x100 + b1, 0x100, b0, b1);
}

} // verus!
