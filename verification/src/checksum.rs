//! A sixteen-bit additive checksum.
//!
//! The bytes are read as little-endian 16-bit words and added modulo 65536.
//! There is no end-around carry: a carry out of the top bit is lost. A byte
//! string and its checksum together add up to `0xFFFF`.

use vstd::prelude::*;

verus! {

/// The modulus of the word sum.
pub open spec fn modulus() -> int {
    0x1_0000
}

/// `n` zero bytes.
pub open spec fn zeros(n: nat) -> Seq<u8> {
    Seq::new(n, |i: int| 0u8)
}

/// How many words `bytes` splits into. A single byte left over at the end is a
/// word of its own.
pub open spec fn word_count(bytes: Seq<u8>) -> nat {
    ((bytes.len() + 1) / 2) as nat
}

/// The value of word `k` of `bytes`: the byte at the lower address is the
/// low-order byte. A single byte left over at the end stands for itself.
pub open spec fn word_at(bytes: Seq<u8>, k: int) -> int {
    if 2 * k + 1 < bytes.len() {
        bytes[2 * k] + 256 * bytes[2 * k + 1]
    } else {
        bytes[2 * k] as int
    }
}

/// The sum of the first `n` words of `bytes`, as an unbounded integer.
pub open spec fn words_total(bytes: Seq<u8>, n: nat) -> int
    decreases n,
{
    if n == 0 {
        0
    } else {
        words_total(bytes, (n - 1) as nat) + word_at(bytes, n - 1)
    }
}

/// The sum of all words of `bytes` modulo 65536.
pub open spec fn word_sum(bytes: Seq<u8>) -> int {
    words_total(bytes, word_count(bytes)) % modulus()
}

/// The checksum of `bytes`: the bitwise complement of the word sum, which on
/// sixteen bits is `0xFFFF` minus the sum.
pub open spec fn checksum_of(bytes: Seq<u8>) -> int {
    0xFFFF - word_sum(bytes)
}

/// Whether `checksum` fits `bytes`: sum and checksum add up to `0xFFFF`
/// modulo 65536, the one sixteen-bit value with all bits set.
pub open spec fn checksum_fits(bytes: Seq<u8>, checksum: u16) -> bool {
    (word_sum(bytes) + checksum) % modulus() == 0xFFFF
}

/// Adds the words of `bytes` with wrapping 16-bit addition.
pub fn calc_sum(bytes: &[u8]) -> (sum: u16)
    ensures
        sum == word_sum(bytes@),
{
    let len = bytes.len();
    let mut acc: u16 = 0;
    let mut i: usize = 0;
    while len - i >= 2
        invariant
            len == bytes@.len(),
            i <= len,
            i % 2 == 0,
            acc == words_total(bytes@, (i / 2) as nat) % modulus(),
        decreases len - i,
    {
        let word: u16 = bytes[i] as u16 + 256 * (bytes[i + 1] as u16);
        assert(word == word_at(bytes@, (i / 2) as int));
        acc = acc.wrapping_add(word);
        i = i + 2;
    }
    if i < len {
        let word: u16 = bytes[i] as u16;
        assert(word == word_at(bytes@, (i / 2) as int));
        acc = acc.wrapping_add(word);
    }
    acc
}

/// Computes the checksum of `bytes`.
pub fn calc_checksum(bytes: &[u8]) -> (checksum: u16)
    ensures
        checksum == checksum_of(bytes@),
{
    let sum = calc_sum(bytes);
    assert(!sum == 0xFFFF - sum) by (bit_vector);
    !sum
}

/// Tells whether `checksum` fits `bytes`.
pub fn validate_checksum(bytes: &[u8], checksum: u16) -> (valid: bool)
    ensures
        valid == checksum_fits(bytes@, checksum),
{
    calc_sum(bytes).wrapping_add(checksum) == 0xFFFF
}

/// The checksum of a byte string always fits that byte string.
pub proof fn checksum_validates(bytes: Seq<u8>)
    ensures
        0 <= checksum_of(bytes) <= 0xFFFF,
        checksum_fits(bytes, checksum_of(bytes) as u16),
{
}

/// Exactly one checksum fits a byte string: its own.
pub proof fn fitting_checksum_is_unique(bytes: Seq<u8>, checksum: u16)
    ensures
        checksum_fits(bytes, checksum) <==> checksum == checksum_of(bytes),
{
}

/// The checksum of one byte string fits another exactly when their word sums
/// agree. So a checksum computed for a buffer with a different word sum is
/// rejected, and one computed for a buffer with the same word sum is not.
pub proof fn foreign_checksum_fits_only_equal_sums(bytes: Seq<u8>, other: Seq<u8>)
    ensures
        checksum_fits(bytes, checksum_of(other) as u16) <==> word_sum(bytes) == word_sum(other),
{
}

/// Zero bytes after the end of a byte string change neither its word sum nor
/// its checksum: a zero byte adds nothing, whether it fills up the last word
/// or stands in a word of its own.
pub proof fn checksum_ignores_zero_padding(bytes: Seq<u8>, n: nat)
    ensures
        word_sum(bytes + zeros(n)) == word_sum(bytes),
        checksum_of(bytes + zeros(n)) == checksum_of(bytes),
        checksum_fits(bytes + zeros(n), checksum_of(bytes) as u16),
{
    let padded = bytes + zeros(n);
    padded_words_total(bytes, n, word_count(padded));
    assert(word_count(bytes) <= word_count(padded));
}

/// The first `m` words of a zero-padded byte string add up to what the words
/// of the byte string itself add up to, as far as `m` reaches into them.
proof fn padded_words_total(bytes: Seq<u8>, n: nat, m: nat)
    requires
        m <= word_count(bytes + zeros(n)),
    ensures
        words_total(bytes + zeros(n), m) == words_total(
            bytes,
            if m <= word_count(bytes) {
                m
            } else {
                word_count(bytes)
            },
        ),
    decreases m,
{
    if m > 0 {
        let padded = bytes + zeros(n);
        let k = m - 1;
        padded_words_total(bytes, n, k as nat);
        if k < word_count(bytes) {
            assert(padded[2 * k] == bytes[2 * k]);
            if 2 * k + 1 < bytes.len() {
                assert(padded[2 * k + 1] == bytes[2 * k + 1]);
            } else if 2 * k + 1 < padded.len() {
                assert(padded[2 * k + 1] == 0);
            }
            assert(word_at(padded, k) == word_at(bytes, k));
        } else {
            assert(padded[2 * k] == 0);
            if 2 * k + 1 < padded.len() {
                assert(padded[2 * k + 1] == 0);
            }
            assert(word_at(padded, k) == 0);
        }
    }
}

/// The weight with which the byte at index `i` enters the word sum: 1 for
/// the low-order byte of a word, 256 for the high-order byte.
pub open spec fn byte_weight(i: int) -> int {
    if i % 2 == 0 {
        1
    } else {
        256
    }
}

/// Changing one byte changes the word sum, so the old checksum no longer
/// fits.
pub proof fn single_byte_change_is_detected(bytes: Seq<u8>, i: int, value: u8)
    requires
        0 <= i < bytes.len(),
        bytes[i] != value,
    ensures
        word_sum(bytes.update(i, value)) != word_sum(bytes),
        !checksum_fits(bytes.update(i, value), checksum_of(bytes) as u16),
{
    let changed = bytes.update(i, value);
    updated_words_total(bytes, i, value, word_count(bytes));
    assert(word_count(changed) == word_count(bytes));
    let total = words_total(bytes, word_count(bytes));
    let delta = (value - bytes[i]) * byte_weight(i);
    assert(words_total(changed, word_count(changed)) == total + delta);
    assert(-0x1_0000 < delta < 0x1_0000 && delta != 0);
}

/// The first `m` words after one byte was changed add up to what they added
/// up to before, plus the change times the byte's weight once `m` reaches
/// the word that holds the byte.
proof fn updated_words_total(bytes: Seq<u8>, i: int, value: u8, m: nat)
    requires
        0 <= i < bytes.len(),
        m <= word_count(bytes),
    ensures
        words_total(bytes.update(i, value), m) == words_total(bytes, m) + (if m > i / 2 {
            (value - bytes[i]) * byte_weight(i)
        } else {
            0
        }),
    decreases m,
{
    if m > 0 {
        let changed = bytes.update(i, value);
        let k = m - 1;
        updated_words_total(bytes, i, value, k as nat);
        if k == i / 2 {
            if i % 2 == 0 {
                assert(changed[2 * k] == value);
            } else {
                assert(changed[2 * k + 1] == value);
                assert(changed[2 * k] == bytes[2 * k]);
            }
        } else {
            assert(changed[2 * k] == bytes[2 * k]);
            if 2 * k + 1 < bytes.len() {
                assert(changed[2 * k + 1] == bytes[2 * k + 1]);
            }
            assert(word_at(changed, k) == word_at(bytes, k));
        }
    }
}

} // verus!
