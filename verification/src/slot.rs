//! Storage-slot addressing for mapping entries.
//!
//! The value of a mapping for key `k` lives at
//! `keccak256(pad32(k) ++ pad32(p))`, where `p` is the mapping's
//! declaration-order slot index and both are serialized as 32 big-endian
//! bytes; the digest is read back big-endian as the 256-bit slot.

use vstd::prelude::*;

use crate::hashing::keccak256_digest;
use crate::hashing::keccak_of;
use crate::word::Word256;
use crate::word::be_bytes_of_word;
use crate::word::push_be_word;
use crate::word::word_from_be_bytes;
use crate::word::word_of_be_bytes;

verus! {

/// The physical storage slot of the mapping entry for `key` in the mapping
/// declared at slot index `mapping_slot`.
pub open spec fn slot_for_spec(key: Word256, mapping_slot: Word256) -> Word256 {
    word_of_be_bytes(keccak_of(be_bytes_of_word(key) + be_bytes_of_word(mapping_slot)))
}

/// Derives the storage slot holding the mapping's value for `key`.
pub fn slot_for(key: &Word256, mapping_slot: &Word256) -> (r: Word256)
    ensures
        r == slot_for_spec(*key, *mapping_slot),
{
    let mut data: Vec<u8> = Vec::new();
    push_be_word(&mut data, key);
    push_be_word(&mut data, mapping_slot);
    let digest = keccak256_digest(&data);
    word_from_be_bytes(&digest)
}

/// Law: slot derivation is deterministic — two calls on bit-for-bit equal
/// inputs yield the same slot.
pub proof fn lemma_slot_for_deterministic(
    key_a: Word256,
    slot_a: Word256,
    key_b: Word256,
    slot_b: Word256,
)
    requires
        key_a == key_b,
        slot_a == slot_b,
    ensures
        slot_for_spec(key_a, slot_a) == slot_for_spec(key_b, slot_b),
{
}

} // verus!
