//! Facts about the bit slots of an instruction word: what a slot reads
//! after a write, and how a word is the union of its slots.
use vstd::prelude::*;
use crate::freyr::vm::instructions::{extract, low_mask, place};

verus! {

/// A slot of `length` bits that begins `start` bits below the top of the
/// word and leaves the five pseudo-op bits alone.
pub open spec fn slot(start: int, length: u8) -> bool {
    5 <= start && start + length <= 32
}

/// `word` without its bits below the first `count` ones.
pub open spec fn upper_bits(word: u32, count: int) -> u32 {
    if count >= 32 {
        word
    } else {
        (word >> ((32 - count) as u32)) << ((32 - count) as u32)
    }
}

/// The masks of the part lengths that the standard layouts use.
pub proof fn lemma_low_masks()
    ensures
        low_mask(1) == 0x1,
        low_mask(2) == 0x3,
        low_mask(3) == 0x7,
        low_mask(8) == 0xff,
        low_mask(16) == 0xffff,
        low_mask(23) == 0x7f_ffff,
        low_mask(26) == 0x3ff_ffff,
        low_mask(27) == 0x7ff_ffff,
{
    assert(((1u32 << 1u32) - 1) as u32 == 0x1 && ((1u32 << 2u32) - 1) as u32 == 0x3 && ((1u32
        << 3u32) - 1) as u32 == 0x7 && ((1u32 << 8u32) - 1) as u32 == 0xff && ((1u32 << 16u32)
        - 1) as u32 == 0xffff && ((1u32 << 23u32) - 1) as u32 == 0x7f_ffff && ((1u32 << 26u32)
        - 1) as u32 == 0x3ff_ffff && ((1u32 << 27u32) - 1) as u32 == 0x7ff_ffff) by (bit_vector);
}

/// A value that fits a slot is not changed by the cut to the slot's length,
/// and what is read from a slot fits it.
pub proof fn lemma_fits(value: u32, word: u32, start: int, length: u8)
    requires
        slot(start, length),
    ensures
        value <= low_mask(length) ==> value & low_mask(length) == value,
        value & low_mask(length) <= low_mask(length),
        extract(word, start, length) <= low_mask(length),
{
    let l: u32 = length as u32;
    let m: u32 = low_mask(length);
    let x: u32 = word >> ((32 - start - length) as u32);
    assert((value <= m ==> value & m == value) && value & m <= m && x & m <= m) by (bit_vector)
        requires
            l <= 27,
            m == ((1u32 << l) - 1) as u32,
    ;
}

/// Reading a slot after a write: the slot written reads its old bits
/// joined with the new ones, every other slot reads what it did before.
pub proof fn lemma_read_after_write(
    word: u32,
    bits: u32,
    start: int,
    length: u8,
    other_start: int,
    other_length: u8,
)
    requires
        slot(start, length),
        slot(other_start, other_length),
        (start == other_start && length == other_length) || start + length <= other_start
            || other_start + other_length <= start,
    ensures
        (start == other_start && length == other_length) ==> extract(
            word | place(bits, start, length),
            other_start,
            other_length,
        ) == extract(word, start, length) | (bits & low_mask(length)),
        (start + length <= other_start || other_start + other_length <= start) ==> extract(
            word | place(bits, start, length),
            other_start,
            other_length,
        ) == extract(word, other_start, other_length),
        (word | place(bits, start, length)) >> 27 == word >> 27,
{
    let l1: u32 = length as u32;
    let l2: u32 = other_length as u32;
    let s1: u32 = start as u32;
    let s2: u32 = other_start as u32;
    let m1: u32 = low_mask(length);
    let m2: u32 = low_mask(other_length);
    let sh1: u32 = (32 - start - length) as u32;
    let sh2: u32 = (32 - other_start - other_length) as u32;
    let w2: u32 = word | ((bits & m1) << sh1);
    assert(w2 >> 27 == word >> 27) by (bit_vector)
        requires
            5 <= s1,
            s1 + l1 <= 32,
            m1 == ((1u32 << l1) - 1) as u32,
            sh1 == 32 - s1 - l1,
            w2 == word | ((bits & m1) << sh1),
    ;
    if start == other_start && length == other_length {
        assert((w2 >> sh1) & m1 == ((word >> sh1) & m1) | (bits & m1)) by (bit_vector)
            requires
                5 <= s1,
                s1 + l1 <= 32,
                m1 == ((1u32 << l1) - 1) as u32,
                sh1 == 32 - s1 - l1,
                w2 == word | ((bits & m1) << sh1),
        ;
    }
    if start + length <= other_start || other_start + other_length <= start {
        assert((w2 >> sh2) & m2 == (word >> sh2) & m2) by (bit_vector)
            requires
                5 <= s1,
                s1 + l1 <= 32,
                5 <= s2,
                s2 + l2 <= 32,
                s1 + l1 <= s2 || s2 + l2 <= s1,
                m1 == ((1u32 << l1) - 1) as u32,
                m2 == ((1u32 << l2) - 1) as u32,
                sh1 == 32 - s1 - l1,
                sh2 == 32 - s2 - l2,
                w2 == word | ((bits & m1) << sh1),
        ;
    }
}

/// A word that holds a pseudo-op and nothing else reads zero in every slot
/// and has no bit below any slot.
pub proof fn lemma_header(pseudoop: u8, start: int, length: u8)
    requires
        pseudoop < 32,
        slot(start, length),
    ensures
        ((pseudoop as u32) << 27) >> 27 == pseudoop,
        extract((pseudoop as u32) << 27, start, length) == 0,
        upper_bits((pseudoop as u32) << 27, 5) == (pseudoop as u32) << 27,
        ((pseudoop as u32) << 27) & 0x7ff_ffff == 0,
{
    let op: u32 = pseudoop as u32;
    let l: u32 = length as u32;
    let s: u32 = start as u32;
    let m: u32 = low_mask(length);
    let sh: u32 = (32 - start - length) as u32;
    assert((op << 27) >> 27 == op && ((op << 27) >> sh) & m == 0 && ((op << 27) >> 27u32) << 27u32
        == op << 27 && (op << 27) & 0x7ff_ffff == 0) by (bit_vector)
        requires
            op < 32,
            5 <= s,
            s + l <= 32,
            m == ((1u32 << l) - 1) as u32,
            sh == 32 - s - l,
    ;
}

/// The bits of a word above the end of a slot are its bits above the
/// beginning of the slot joined with the slot itself.
pub proof fn lemma_upper_bits_step(word: u32, start: int, length: u8)
    requires
        slot(start, length),
    ensures
        upper_bits(word, start + length) == upper_bits(word, start) | place(
            extract(word, start, length),
            start,
            length,
        ),
{
    let l: u32 = length as u32;
    let s: u32 = start as u32;
    let m: u32 = low_mask(length);
    let sh: u32 = (32 - start - length) as u32;
    let up: u32 = (32 - start) as u32;
    if start == 32 {
        assert(word == word | ((((word >> sh) & m) & m) << sh)) by (bit_vector)
            requires
                m == ((1u32 << 0u32) - 1) as u32,
                sh == 0,
        ;
    } else if start + length == 32 {
        assert(word == ((word >> up) << up) | ((((word >> sh) & m) & m) << sh)) by (bit_vector)
            requires
                5 <= s,
                s + l == 32,
                m == ((1u32 << l) - 1) as u32,
                sh == 0,
                up == 32 - s,
        ;
    } else {
        assert((word >> sh) << sh == ((word >> up) << up) | ((((word >> sh) & m) & m) << sh))
            by (bit_vector)
            requires
                5 <= s,
                s + l < 32,
                m == ((1u32 << l) - 1) as u32,
                sh == 32 - s - l,
                up == 32 - s,
        ;
    }
}

/// A word whose low bits are zero is its own upper part, and a word's
/// five upper bits are its pseudo-op moved back into place.
pub proof fn lemma_upper_bits_ends(word: u32, count: int)
    requires
        5 <= count <= 32,
    ensures
        upper_bits(word, 5) == (word >> 27) << 27,
        word >> 27 < 32,
        (count < 32 && word & low_mask((32 - count) as u8) == 0) ==> upper_bits(word, count)
            == word,
        count == 32 ==> upper_bits(word, count) == word,
{
    let c: u32 = count as u32;
    assert(word >> 27 < 32) by (bit_vector);
    if count < 32 {
        let l: u32 = (32 - count) as u32;
        let m: u32 = low_mask((32 - count) as u8);
        assert(word & m == 0 ==> (word >> l) << l == word) by (bit_vector)
            requires
                l <= 27,
                m == ((1u32 << l) - 1) as u32,
        ;
    }
}

} // verus!
