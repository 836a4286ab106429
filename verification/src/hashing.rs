//! The one cryptographic primitive the layout rule needs: Keccak-256.

use vstd::prelude::*;

verus! {

/// The Keccak-256 digest of a byte sequence. The digest is far too large to
/// state here, but it depends on the input bytes alone, so it is only named;
/// the wrapper below ties the name to the real implementation.
pub uninterp spec fn keccak_of(data: Seq<u8>) -> Seq<u8>;

/// Relies on alloy_primitives::keccak256: the 32-byte Keccak-256 digest of
/// the input, a pure function of the input bytes.
#[verifier::external_body]
pub(crate) fn keccak256_digest(data: &Vec<u8>) -> (r: Vec<u8>)
    ensures
        r@ == keccak_of(data@),
        r@.len() == 32,
{
    alloy_primitives::keccak256(data.as_slice()).0.to_vec()
}

} // verus!
