//! Codec for the packed 256-bit record stored at each list node's slot.
//!
//! Layout, low bit to high: bits 0–63 `first_value`, bits 64–223
//! `second_value`, bit 224 the unlocked flag, bits 225–255 unused padding
//! that every rewrite must preserve.

use vstd::prelude::*;
use vstd::arithmetic::power2::lemma2_to64;
use vstd::arithmetic::power2::lemma_pow2_adds;
use vstd::arithmetic::power2::pow2;

use crate::word::Word256;
use crate::word::is_zero_word;
use crate::word::word_as_nat;
use crate::word::word_from_u64_spec;

verus! {

/// Bits 0–63 of the record: the value whose parity picks the traversal rule.
pub open spec fn first_of(w: Word256) -> u64 {
    w.l0
}

/// Bits 64–223 of the record, as a word whose upper 96 bits are zero: the
/// alternate "next" pointer, an address-sized field.
pub open spec fn second_of(w: Word256) -> Word256 {
    Word256 { l0: w.l1, l1: w.l2, l2: w.l3 & 0xffff_ffff, l3: 0 }
}

/// Bit 224 of the record: the flag the walker sets and the contract reads.
pub open spec fn flag_of(w: Word256) -> bool {
    (w.l3 >> 32) & 1 == 1
}

/// The record with bit 224 set and every other bit unchanged.
pub open spec fn set_flag_spec(w: Word256) -> Word256 {
    Word256 { l0: w.l0, l1: w.l1, l2: w.l2, l3: w.l3 | 0x1_0000_0000 }
}

/// Bit `i` of the 256-bit record, for `0 <= i < 256`.
pub open spec fn bit_of(w: Word256, i: int) -> bool {
    if i < 64 {
        (w.l0 >> (i as u64)) & 1 == 1
    } else if i < 128 {
        (w.l1 >> ((i - 64) as u64)) & 1 == 1
    } else if i < 192 {
        (w.l2 >> ((i - 128) as u64)) & 1 == 1
    } else {
        (w.l3 >> ((i - 192) as u64)) & 1 == 1
    }
}

/// Splits a record into `(first_value, second_value, flag)`.
pub fn decode(w: &Word256) -> (r: (u64, Word256, bool))
    ensures
        r.0 == first_of(*w),
        r.1 == second_of(*w),
        r.2 == flag_of(*w),
{
    let first: u64 = w.l0;
    let second = Word256 { l0: w.l1, l1: w.l2, l2: w.l3 & 0xffff_ffff, l3: 0 };
    let flag: bool = (w.l3 >> 32u64) & 1 == 1;
    (first, second, flag)
}

/// Returns the record with the unlocked flag set, all other bits untouched.
pub fn set_flag(w: &Word256) -> (r: Word256)
    ensures
        r == set_flag_spec(*w),
{
    Word256 { l0: w.l0, l1: w.l1, l2: w.l2, l3: w.l3 | 0x1_0000_0000 }
}

/// Law: setting the flag changes no decoded field — `first_value` and
/// `second_value` of the flagged record equal those of the original, the flag
/// of the flagged record is set, the flagged record is never the zero word,
/// every bit other than bit 224 is unchanged, and setting the flag twice is
/// the same as setting it once.
pub proof fn lemma_set_flag_preserves_fields(w: Word256)
    ensures
        first_of(set_flag_spec(w)) == first_of(w),
        second_of(set_flag_spec(w)) == second_of(w),
        flag_of(set_flag_spec(w)),
        !is_zero_word(set_flag_spec(w)),
        forall|i: int| 0 <= i < 256 && i != 224 ==> bit_of(set_flag_spec(w), i) == bit_of(w, i),
        set_flag_spec(set_flag_spec(w)) == set_flag_spec(w),
{
    let x = w.l3;
    assert((x | 0x1_0000_0000u64) & 0xffff_ffff == x & 0xffff_ffff) by (bit_vector);
    assert(((x | 0x1_0000_0000u64) >> 32) & 1 == 1) by (bit_vector);
    assert(x | 0x1_0000_0000u64 != 0) by (bit_vector);
    assert((x | 0x1_0000_0000u64) | 0x1_0000_0000u64 == x | 0x1_0000_0000u64) by (bit_vector);
    assert forall|i: int| 0 <= i < 256 && i != 224 implies bit_of(set_flag_spec(w), i) == bit_of(
        w,
        i,
    ) by {
        if i >= 192 {
            let k = (i - 192) as u64;
            assert(((x | 0x1_0000_0000u64) >> k) & 1 == (x >> k) & 1) by (bit_vector)
                requires
                    k < 64 && k != 32,
            ;
        }
    }
}

/// Law: the decoded fields are the arithmetic sub-fields of the word's
/// 256-bit value — `first_value` is the value modulo 2^64, `second_value` is
/// bits 64–223 of the value (shift right by 64, take modulo 2^160), and the
/// flag is bit 224 (shift right by 224, take modulo 2).
pub proof fn lemma_fields_are_sub_fields(w: Word256)
    ensures
        first_of(w) as nat == word_as_nat(w) % pow2(64),
        word_as_nat(second_of(w)) == (word_as_nat(w) / pow2(64)) % pow2(160),
        flag_of(w) <==> (word_as_nat(w) / pow2(224)) % 2 == 1,
{
    lemma2_to64();
    lemma_pow2_adds(64, 64);
    lemma_pow2_adds(128, 32);
    lemma_pow2_adds(160, 64);
    let p64: int = pow2(64) as int;
    let p160: int = pow2(160) as int;
    let p224: int = pow2(224) as int;
    let x = word_as_nat(w) as int;
    let l3 = w.l3;
    let lo32 = (l3 & 0xffff_ffff) as int;
    let hi32 = (l3 >> 32) as int;
    assert(l3 == (l3 & 0xffff_ffff) + 0x1_0000_0000 * (l3 >> 32) && (l3 & 0xffff_ffff)
        < 0x1_0000_0000 && (l3 >> 32) < 0x1_0000_0000) by (bit_vector);
    assert(p160 == 0x1_0000_0000 * (p64 * p64)) by (nonlinear_arith)
        requires
            p64 == 0x1_0000_0000_0000_0000,
            p160 == pow2(128) as int * 0x1_0000_0000,
            pow2(128) == pow2(64) * pow2(64),
            pow2(64) == 0x1_0000_0000_0000_0000,
    ;
    assert(p224 == 0x1_0000_0000 * (p64 * p64 * p64)) by (nonlinear_arith)
        requires
            p64 == 0x1_0000_0000_0000_0000,
            p224 == p160 * p64,
            p160 == 0x1_0000_0000 * (p64 * p64),
    ;
    // first_value: x == q1 * 2^64 + l0 with l0 < 2^64.
    let q1 = w.l1 + w.l2 * p64 + w.l3 * p64 * p64;
    assert(x == q1 * p64 + w.l0) by (nonlinear_arith)
        requires
            x == w.l0 + w.l1 * 0x1_0000_0000_0000_0000 + w.l2 * (
            0x1_0000_0000_0000_0000_0000_0000_0000_0000) + w.l3 * (
            0x1_0000_0000_0000_0000_0000_0000_0000_0000_0000_0000_0000_0000),
            q1 == w.l1 + w.l2 * p64 + w.l3 * p64 * p64,
            p64 == 0x1_0000_0000_0000_0000,
    ;
    vstd::arithmetic::div_mod::lemma_fundamental_div_mod_converse(x, p64, q1, w.l0 as int);
    // second_value: x / 2^64 == q1, and q1 == second + hi32 * 2^160.
    let second = word_as_nat(second_of(w)) as int;
    assert(second == w.l1 + (w.l2 as int) * p64 + lo32 * (p64 * p64)) by (nonlinear_arith)
        requires
            second == w.l1 + w.l2 * 0x1_0000_0000_0000_0000 + lo32 * (
            0x1_0000_0000_0000_0000_0000_0000_0000_0000),
            p64 == 0x1_0000_0000_0000_0000,
    ;
    assert(q1 == second + hi32 * p160) by (nonlinear_arith)
        requires
            q1 == w.l1 + w.l2 * p64 + w.l3 * p64 * p64,
            w.l3 == lo32 + 0x1_0000_0000 * hi32,
            second == w.l1 + w.l2 * p64 + lo32 * (p64 * p64),
            p160 == 0x1_0000_0000 * (p64 * p64),
    ;
    assert(0 <= second < p160) by (nonlinear_arith)
        requires
            second == w.l1 + w.l2 * p64 + lo32 * (p64 * p64),
            0 <= w.l1 < p64,
            0 <= w.l2 < p64,
            0 <= lo32 < 0x1_0000_0000,
            p160 == 0x1_0000_0000 * (p64 * p64),
    ;
    vstd::arithmetic::div_mod::lemma_fundamental_div_mod_converse(q1, p160, hi32, second);
    // flag: x == hi32 * 2^224 + r with r < 2^224.
    let r = w.l0 + w.l1 * p64 + w.l2 * (p64 * p64) + lo32 * (p64 * p64 * p64);
    assert(x == hi32 * p224 + r) by (nonlinear_arith)
        requires
            x == q1 * p64 + w.l0,
            q1 == w.l1 + w.l2 * p64 + w.l3 * p64 * p64,
            w.l3 == lo32 + 0x1_0000_0000 * hi32,
            r == w.l0 + w.l1 * p64 + w.l2 * (p64 * p64) + lo32 * (p64 * p64 * p64),
            p224 == 0x1_0000_0000 * (p64 * p64 * p64),
    ;
    assert(0 <= r < p224) by (nonlinear_arith)
        requires
            r == w.l0 + w.l1 * p64 + w.l2 * (p64 * p64) + lo32 * (p64 * p64 * p64),
            0 <= w.l0 < p64,
            0 <= w.l1 < p64,
            0 <= w.l2 < p64,
            0 <= lo32 < 0x1_0000_0000,
            p224 == 0x1_0000_0000 * (p64 * p64 * p64),
    ;
    vstd::arithmetic::div_mod::lemma_fundamental_div_mod_converse(x, p224, hi32, r);
    assert(((l3 >> 32) & 1 == 1) <==> (l3 >> 32) % 2 == 1) by (bit_vector);
}

/// The next key of the traversal rule: `first_value` widened to 256 bits when
/// it is even, `second_value` when it is odd.
pub open spec fn next_key_spec(w: Word256) -> Word256 {
    if first_of(w) % 2 == 0 {
        word_from_u64_spec(first_of(w))
    } else {
        second_of(w)
    }
}

/// Computes the next key from a decoded record.
pub fn next_key(w: &Word256) -> (r: Word256)
    ensures
        r == next_key_spec(*w),
{
    let (first, second, _) = decode(w);
    if first % 2 == 0 {
        crate::word::word_from_u64(first)
    } else {
        second
    }
}

/// Law: the next key of a flagged record equals the next key of the original
/// record, so flipping flags never redirects the traversal.
pub proof fn lemma_set_flag_preserves_next_key(w: Word256)
    ensures
        next_key_spec(set_flag_spec(w)) == next_key_spec(w),
{
    lemma_set_flag_preserves_fields(w);
}

} // verus!
