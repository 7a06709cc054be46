//! The 32-bit cyclic redundancy check of Ethernet and zip.
//!
//! The check value is what is left of the data after division by a fixed
//! polynomial, bit by bit from the low-order end. The register starts with
//! all bits set and is complemented at the end.

use vstd::prelude::*;

verus! {

/// The polynomial, with its coefficients in reversed bit order.
pub const POLYNOMIAL: u32 = 0xEDB8_8320;

/// The register after one bit has left it: it moves one place to the right,
/// and the polynomial is taken off where the bit that left was 1.
pub open spec fn shift_once(register: u32) -> u32 {
    if register & 1 == 1 {
        (register >> 1) ^ POLYNOMIAL
    } else {
        register >> 1
    }
}

/// The register after `n` bits have left it.
pub open spec fn shift(register: u32, n: nat) -> u32
    decreases n,
{
    if n == 0 {
        register
    } else {
        shift_once(shift(register, (n - 1) as nat))
    }
}

/// The register after one more byte of data: the byte is laid over the low
/// end of the register, and eight bits leave.
pub open spec fn feed(register: u32, byte: u8) -> u32 {
    shift(register ^ (byte as u32), 8)
}

/// The register after all of `bytes`, from one with all bits set.
pub open spec fn register_after(bytes: Seq<u8>) -> u32
    decreases bytes.len(),
{
    if bytes.len() == 0 {
        0xFFFF_FFFF
    } else {
        feed(register_after(bytes.drop_last()), bytes.last())
    }
}

/// The check value of `bytes`: the complement of the register after them.
pub open spec fn crc32_of(bytes: Seq<u8>) -> u32 {
    register_after(bytes) ^ 0xFFFF_FFFF
}

/// Eight single steps, written out.
spec fn shift_eight(register: u32) -> u32 {
    shift_once(
        shift_once(
            shift_once(
                shift_once(shift_once(shift_once(shift_once(shift_once(register))))),
            ),
        ),
    )
}

proof fn shift_eight_is_shift(register: u32)
    ensures
        shift(register, 8) == shift_eight(register),
{
    reveal_with_fuel(shift, 9);
}

/// Eight bits leave the whole register as they leave its low byte alone, with
/// the rest of the register, moved down by eight, laid over the result. This
/// is what lets a table of 256 entries stand for the eight steps.
proof fn shift_by_table(register: u32)
    ensures
        shift(register, 8) == shift((register & 0xFF) as u32, 8) ^ (register >> 8),
        register & 0xFF < 256,
{
    shift_eight_is_shift(register);
    shift_eight_is_shift((register & 0xFF) as u32);
    assert(shift_eight(register) == shift_eight((register & 0xFF) as u32) ^ (register >> 8))
        by (bit_vector);
    assert(register & 0xFF < 256) by (bit_vector);
}

/// Computes the check value of `bytes`.
pub fn crc32(bytes: &[u8]) -> (crc: u32)
    ensures
        crc == crc32_of(bytes@),
{
    let mut crc_table = [0u32; 256];
    let mut crc: u32;
    let mut i: usize = 0;
    while i < 256
        invariant
            i <= 256,
            forall|k: int| 0 <= k < i ==> crc_table@[k] == shift(k as u32, 8),
        decreases 256 - i,
    {
        crc = i as u32;
        let mut j: usize = 0;
        while j < 8
            invariant
                j <= 8,
                i < 256,
                crc == shift(i as u32, j as nat),
            decreases 8 - j,
        {
            let low = crc & 1;
            assert(low == 0 || low == 1) by (bit_vector)
                requires
                    low == crc & 1,
            ;
            crc = if low > 0 {
                (crc >> 1) ^ POLYNOMIAL
            } else {
                crc >> 1
            };
            j = j + 1;
        }
        crc_table[i] = crc;
        i = i + 1;
    }
    crc = 0xFFFF_FFFF;
    let mut n: usize = 0;
    while n < bytes.len()
        invariant
            n <= bytes@.len(),
            forall|k: int| 0 <= k < 256 ==> crc_table@[k] == shift(k as u32, 8),
            crc == register_after(bytes@.take(n as int)),
        decreases bytes@.len() - n,
    {
        let byte = bytes[n];
        let laid = crc ^ byte as u32;
        proof {
            shift_by_table(laid);
            assert(laid >> 8 == crc >> 8) by (bit_vector)
                requires
                    laid == crc ^ byte as u32,
            ;
            assert(bytes@.take(n + 1).drop_last() =~= bytes@.take(n as int));
            assert(bytes@.take(n + 1).last() == byte);
        }
        crc = crc_table[(laid & 0xFF) as usize] ^ (crc >> 8);
        n = n + 1;
    }
    assert(bytes@.take(n as int) =~= bytes@);
    crc ^ 0xFFFF_FFFF
}

/// Two registers that are equal after a bit has left them were equal before:
/// the top bit of the result tells which bit left, and the rest is the rest.
proof fn shift_once_is_injective(a: u32, b: u32)
    requires
        shift_once(a) == shift_once(b),
    ensures
        a == b,
{
    assert(shift_once(a) == shift_once(b) ==> a == b) by (bit_vector);
}

/// Two registers that are equal after `n` bits have left them were equal
/// before.
proof fn shift_is_injective(a: u32, b: u32, n: nat)
    requires
        shift(a, n) == shift(b, n),
    ensures
        a == b,
    decreases n,
{
    if n > 0 {
        shift_once_is_injective(shift(a, (n - 1) as nat), shift(b, (n - 1) as nat));
        shift_is_injective(a, b, (n - 1) as nat);
    }
}

/// Once the registers of two byte strings differ, equal bytes that follow
/// keep them apart; and two different bytes drive equal registers apart.
proof fn registers_stay_apart(bytes: Seq<u8>, other: Seq<u8>, i: int, n: int)
    requires
        bytes.len() == other.len(),
        0 <= i < n <= bytes.len(),
        bytes[i] != other[i],
        forall|k: int| 0 <= k < bytes.len() && k != i ==> bytes[k] == other[k],
    ensures
        register_after(bytes.take(n)) != register_after(other.take(n)),
    decreases n,
{
    let before = register_after(bytes.take(n - 1));
    let other_before = register_after(other.take(n - 1));
    let byte = bytes[n - 1];
    let other_byte = other[n - 1];
    assert(bytes.take(n).drop_last() =~= bytes.take(n - 1));
    assert(other.take(n).drop_last() =~= other.take(n - 1));
    if n - 1 == i {
        assert(bytes.take(i) =~= other.take(i));
        assert(before ^ (byte as u32) != before ^ (other_byte as u32)) by (bit_vector)
            requires
                byte != other_byte,
        ;
    } else {
        registers_stay_apart(bytes, other, i, n - 1);
        assert(before ^ (byte as u32) != other_before ^ (byte as u32)) by (bit_vector)
            requires
                before != other_before,
        ;
    }
    if feed(before, byte) == feed(other_before, other_byte) {
        shift_is_injective(before ^ (byte as u32), other_before ^ (other_byte as u32), 8);
    }
}

/// A change that stays within one byte always changes the check value.
pub proof fn change_within_one_byte_is_detected(bytes: Seq<u8>, i: int, value: u8)
    requires
        0 <= i < bytes.len(),
        bytes[i] != value,
    ensures
        crc32_of(bytes.update(i, value)) != crc32_of(bytes),
{
    let changed = bytes.update(i, value);
    registers_stay_apart(bytes, changed, i, bytes.len() as int);
    assert(bytes.take(bytes.len() as int) =~= bytes);
    assert(changed.take(bytes.len() as int) =~= changed);
    let a = register_after(bytes);
    let b = register_after(changed);
    assert(a ^ 0xFFFF_FFFF != b ^ 0xFFFF_FFFF) by (bit_vector)
        requires
            a != b,
    ;
}

/// The check value of no data at all is 0.
pub proof fn crc32_of_nothing()
    ensures
        crc32_of(Seq::<u8>::empty()) == 0,
{
    assert(0xFFFF_FFFFu32 ^ 0xFFFF_FFFF == 0) by (bit_vector);
}

} // verus!
