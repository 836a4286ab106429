//! 256-bit storage words and 160-bit account addresses, modelled as plain
//! unsigned limbs so that every bit-level operation on them can be verified.

use vstd::prelude::*;

verus! {

/// One 256-bit unsigned integer: a storage slot, a storage word, or a logical
/// list key. `l0` holds bits 0–63 (least significant), `l3` bits 192–255.
#[derive(Clone, Copy, Debug, PartialEq, Eq, Structural, Hash)]
pub struct Word256 {
    pub l0: u64,
    pub l1: u64,
    pub l2: u64,
    pub l3: u64,
}

/// A 160-bit account address: `hi` holds the most significant 4 bytes,
/// `mid` the next 8, `lo` the least significant 8.
#[derive(Clone, Copy, Debug, PartialEq, Eq, Structural, Hash)]
pub struct Address160 {
    pub hi: u32,
    pub mid: u64,
    pub lo: u64,
}

/// Balance and nonce of an account, as the state provider reports them.
#[derive(Clone, Copy, Debug, PartialEq, Eq, Structural)]
pub struct AccountInfo {
    pub balance: Word256,
    pub nonce: u64,
}

/// The word whose 256 bits are all zero: the "no node here" sentinel.
pub open spec fn zero_word() -> Word256 {
    Word256 { l0: 0, l1: 0, l2: 0, l3: 0 }
}

/// True exactly when every bit of `w` is zero.
pub open spec fn is_zero_word(w: Word256) -> bool {
    w.l0 == 0 && w.l1 == 0 && w.l2 == 0 && w.l3 == 0
}

/// The word whose low 64 bits are `x` and whose upper 192 bits are zero.
pub open spec fn word_from_u64_spec(x: u64) -> Word256 {
    Word256 { l0: x, l1: 0, l2: 0, l3: 0 }
}

/// The value of `w` as a mathematical integer.
pub open spec fn word_as_nat(w: Word256) -> nat {
    w.l0 as nat
        + w.l1 as nat * 0x1_0000_0000_0000_0000
        + w.l2 as nat * 0x1_0000_0000_0000_0000_0000_0000_0000_0000
        + w.l3 as nat * 0x1_0000_0000_0000_0000_0000_0000_0000_0000_0000_0000_0000_0000
}

pub fn word_from_u64(x: u64) -> (r: Word256)
    ensures
        r == word_from_u64_spec(x),
{
    Word256 { l0: x, l1: 0, l2: 0, l3: 0 }
}

pub fn word_is_zero(w: &Word256) -> (r: bool)
    ensures
        r == is_zero_word(*w),
{
    w.l0 == 0 && w.l1 == 0 && w.l2 == 0 && w.l3 == 0
}

/// The 8 bytes of `x`, most significant first.
pub open spec fn be_bytes_of_u64(x: u64) -> Seq<u8> {
    seq![
        ((x >> 56) & 0xff) as u8,
        ((x >> 48) & 0xff) as u8,
        ((x >> 40) & 0xff) as u8,
        ((x >> 32) & 0xff) as u8,
        ((x >> 24) & 0xff) as u8,
        ((x >> 16) & 0xff) as u8,
        ((x >> 8) & 0xff) as u8,
        (x & 0xff) as u8,
    ]
}

/// The 32 bytes of `w`, most significant first, as the slot-derivation rule
/// serializes a 256-bit value.
pub open spec fn be_bytes_of_word(w: Word256) -> Seq<u8> {
    be_bytes_of_u64(w.l3) + be_bytes_of_u64(w.l2) + be_bytes_of_u64(w.l1) + be_bytes_of_u64(w.l0)
}

/// The 64-bit value read big-endian from `s[i .. i + 8]`.
pub open spec fn u64_of_be_bytes(s: Seq<u8>, i: int) -> u64 {
    ((s[i] as u64) << 56) | ((s[i + 1] as u64) << 48) | ((s[i + 2] as u64) << 40)
        | ((s[i + 3] as u64) << 32) | ((s[i + 4] as u64) << 24) | ((s[i + 5] as u64) << 16)
        | ((s[i + 6] as u64) << 8) | (s[i + 7] as u64)
}

/// The 256-bit value read big-endian from a 32-byte sequence.
pub open spec fn word_of_be_bytes(s: Seq<u8>) -> Word256 {
    Word256 {
        l3: u64_of_be_bytes(s, 0),
        l2: u64_of_be_bytes(s, 8),
        l1: u64_of_be_bytes(s, 16),
        l0: u64_of_be_bytes(s, 24),
    }
}

/// Appends the 8 big-endian bytes of `x` to `out`.
pub fn push_be_u64(out: &mut Vec<u8>, x: u64)
    ensures
        final(out)@ == old(out)@ + be_bytes_of_u64(x),
{
    out.push(((x >> 56) & 0xff) as u8);
    out.push(((x >> 48) & 0xff) as u8);
    out.push(((x >> 40) & 0xff) as u8);
    out.push(((x >> 32) & 0xff) as u8);
    out.push(((x >> 24) & 0xff) as u8);
    out.push(((x >> 16) & 0xff) as u8);
    out.push(((x >> 8) & 0xff) as u8);
    out.push((x & 0xff) as u8);
    proof {
        assert(out@ =~= old(out)@ + be_bytes_of_u64(x));
    }
}

/// Appends the 32 big-endian bytes of `w` to `out`.
pub fn push_be_word(out: &mut Vec<u8>, w: &Word256)
    ensures
        final(out)@ == old(out)@ + be_bytes_of_word(*w),
{
    push_be_u64(out, w.l3);
    push_be_u64(out, w.l2);
    push_be_u64(out, w.l1);
    push_be_u64(out, w.l0);
    proof {
        assert(out@ =~= old(out)@ + be_bytes_of_word(*w));
    }
}

/// The 32 big-endian bytes of `w` as a fresh vector.
pub fn word_to_be_bytes(w: &Word256) -> (r: Vec<u8>)
    ensures
        r@ == be_bytes_of_word(*w),
{
    let mut out: Vec<u8> = Vec::new();
    push_be_word(&mut out, w);
    out
}

/// Reads the 64-bit value stored big-endian at `bytes[i .. i + 8]`.
pub fn be_u64_at(bytes: &Vec<u8>, i: usize) -> (r: u64)
    requires
        i + 8 <= bytes@.len(),
    ensures
        r == u64_of_be_bytes(bytes@, i as int),
{
    // Taking the length as a usize bounds i + 7 within the index type.
    let n: usize = bytes.len();
    let _ = n;
    ((bytes[i] as u64) << 56u64) | ((bytes[i + 1] as u64) << 48u64)
        | ((bytes[i + 2] as u64) << 40u64) | ((bytes[i + 3] as u64) << 32u64)
        | ((bytes[i + 4] as u64) << 24u64) | ((bytes[i + 5] as u64) << 16u64)
        | ((bytes[i + 6] as u64) << 8u64) | (bytes[i + 7] as u64)
}

/// Reads a whole 256-bit value stored big-endian in a 32-byte vector.
pub fn word_from_be_bytes(bytes: &Vec<u8>) -> (r: Word256)
    requires
        bytes@.len() == 32,
    ensures
        r == word_of_be_bytes(bytes@),
{
    Word256 {
        l3: be_u64_at(bytes, 0),
        l2: be_u64_at(bytes, 8),
        l1: be_u64_at(bytes, 16),
        l0: be_u64_at(bytes, 24),
    }
}

} // verus!
