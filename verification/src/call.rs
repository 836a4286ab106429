//! The verified half of the call simulator: encoding the fixed-signature
//! method call over the collected keys, and classifying what the execution
//! engine reports — a normal return whose bytes must decode to one boolean,
//! an explicit revert, or an abnormal halt.

use vstd::prelude::*;

use crate::errors::SolveError;
use crate::hashing::keccak256_digest;
use crate::hashing::keccak_of;
use crate::word::Word256;
use crate::word::be_bytes_of_word;
use crate::word::push_be_word;
use crate::word::word_from_u64;
use crate::word::word_from_u64_spec;

verus! {

/// The ASCII bytes of the one method signature this core calls:
/// `isSolved(uint256[])`.
pub open spec fn method_signature_bytes() -> Seq<u8> {
    seq![
        0x69u8, 0x73u8, 0x53u8, 0x6fu8, 0x6cu8, 0x76u8, 0x65u8, 0x64u8, 0x28u8, 0x75u8, 0x69u8,
        0x6eu8, 0x74u8, 0x32u8, 0x35u8, 0x36u8, 0x5bu8, 0x5du8, 0x29u8,
    ]
}

/// Builds the signature bytes at runtime.
fn method_signature() -> (r: Vec<u8>)
    ensures
        r@ == method_signature_bytes(),
{
    let mut out: Vec<u8> = Vec::new();
    out.push(0x69);
    out.push(0x73);
    out.push(0x53);
    out.push(0x6f);
    out.push(0x6c);
    out.push(0x76);
    out.push(0x65);
    out.push(0x64);
    out.push(0x28);
    out.push(0x75);
    out.push(0x69);
    out.push(0x6e);
    out.push(0x74);
    out.push(0x32);
    out.push(0x35);
    out.push(0x36);
    out.push(0x5b);
    out.push(0x5d);
    out.push(0x29);
    proof {
        assert(out@ =~= method_signature_bytes());
    }
    out
}

/// The 4-byte method selector: the leading bytes of the signature's digest.
pub open spec fn selector_bytes() -> Seq<u8> {
    keccak_of(method_signature_bytes()).take(4)
}

/// The elements of a `uint256[]` argument: each key as 32 big-endian bytes,
/// in order.
pub open spec fn enc_keys(keys: Seq<Word256>) -> Seq<u8>
    decreases keys.len(),
{
    if keys.len() == 0 {
        Seq::empty()
    } else {
        be_bytes_of_word(keys[0]) + enc_keys(keys.subrange(1, keys.len() as int))
    }
}

/// Appending a key appends exactly its 32 bytes to the encoding.
pub proof fn lemma_enc_keys_push(keys: Seq<Word256>, k: Word256)
    ensures
        enc_keys(keys.push(k)) == enc_keys(keys) + be_bytes_of_word(k),
    decreases keys.len(),
{
    let keys2 = keys.push(k);
    if keys.len() == 0 {
        assert(keys2[0] == k);
        assert(keys2.subrange(1, keys2.len() as int) =~= Seq::<Word256>::empty());
        assert(enc_keys(keys2) == be_bytes_of_word(k) + enc_keys(
            keys2.subrange(1, keys2.len() as int),
        ));
        assert(enc_keys(keys2) =~= be_bytes_of_word(k));
        assert(enc_keys(keys) + be_bytes_of_word(k) =~= be_bytes_of_word(k));
    } else {
        let t = keys.subrange(1, keys.len() as int);
        lemma_enc_keys_push(t, k);
        assert(keys2[0] == keys[0]);
        assert(keys2.subrange(1, keys2.len() as int) =~= t.push(k));
        assert(be_bytes_of_word(keys[0]) + (enc_keys(t) + be_bytes_of_word(k)) =~= (
        be_bytes_of_word(keys[0]) + enc_keys(t)) + be_bytes_of_word(k));
    }
}

/// The full calldata of `isSolved(keys)` under the standard argument
/// encoding: selector, the offset word (0x20) of the single dynamic
/// argument, the array length word, then the elements.
pub open spec fn is_solved_calldata(keys: Seq<Word256>) -> Seq<u8> {
    selector_bytes() + be_bytes_of_word(word_from_u64_spec(0x20)) + be_bytes_of_word(
        word_from_u64_spec(keys.len() as u64),
    ) + enc_keys(keys)
}

/// Encodes the `isSolved(uint256[])` call over `keys`.
pub fn encode_is_solved_call(keys: &Vec<Word256>) -> (r: Vec<u8>)
    ensures
        r@ == is_solved_calldata(keys@),
{
    let sig = method_signature();
    let digest = keccak256_digest(&sig);
    let mut data: Vec<u8> = Vec::new();
    data.push(digest[0]);
    data.push(digest[1]);
    data.push(digest[2]);
    data.push(digest[3]);
    proof {
        assert(data@ =~= selector_bytes());
    }
    push_be_word(&mut data, &word_from_u64(0x20));
    push_be_word(&mut data, &word_from_u64(keys.len() as u64));
    let ghost head = data@;
    proof {
        assert(head == selector_bytes() + be_bytes_of_word(word_from_u64_spec(0x20))
            + be_bytes_of_word(word_from_u64_spec(keys@.len() as u64)));
        assert(data@ =~= head + enc_keys(keys@.take(0)));
    }
    let mut i: usize = 0;
    while i < keys.len()
        invariant
            i <= keys@.len(),
            head == selector_bytes() + be_bytes_of_word(word_from_u64_spec(0x20))
                + be_bytes_of_word(word_from_u64_spec(keys@.len() as u64)),
            data@ == head + enc_keys(keys@.take(i as int)),
        decreases keys@.len() - i,
    {
        push_be_word(&mut data, &keys[i]);
        proof {
            lemma_enc_keys_push(keys@.take(i as int), keys@[i as int]);
            assert(keys@.take(i as int).push(keys@[i as int]) =~= keys@.take(i as int + 1));
            assert((head + enc_keys(keys@.take(i as int))) + be_bytes_of_word(keys@[i as int]) =~=
            head + (enc_keys(keys@.take(i as int)) + be_bytes_of_word(keys@[i as int])));
        }
        i = i + 1;
    }
    proof {
        assert(keys@.take(keys@.len() as int) =~= keys@);
    }
    data
}

/// The boolean a strict 32-byte return encodes: the first 31 bytes must be
/// zero and the last byte 0 or 1; anything else is no boolean.
pub open spec fn bool_return_spec(s: Seq<u8>) -> Option<bool> {
    if s.len() == 32 && (forall|i: int| 0 <= i < 31 ==> s[i] == 0) && (s[31] == 0 || s[31] == 1) {
        Some(s[31] == 1)
    } else {
        None
    }
}

/// Decodes the single boolean return value, strictly: exactly when the bytes
/// are a valid boolean encoding the boolean is returned, else `DecodeError`.
pub fn decode_bool_return(bytes: &Vec<u8>) -> (r: Result<bool, SolveError>)
    ensures
        r matches Ok(b) ==> bool_return_spec(bytes@) == Some(b),
        r matches Err(e) ==> (e matches SolveError::DecodeError && bool_return_spec(
            bytes@,
        ) is None),
{
    if bytes.len() != 32 {
        return Err(SolveError::DecodeError);
    }
    let mut i: usize = 0;
    while i < 31
        invariant
            i <= 31,
            bytes@.len() == 32,
            forall|j: int| 0 <= j < i ==> bytes@[j] == 0,
        decreases 31 - i,
    {
        if bytes[i] != 0 {
            return Err(SolveError::DecodeError);
        }
        i = i + 1;
    }
    let last: u8 = bytes[31];
    if last == 0 {
        Ok(false)
    } else if last == 1 {
        Ok(true)
    } else {
        Err(SolveError::DecodeError)
    }
}

/// The three outcome shapes of one executed call, as the execution engine
/// reports them: a normal return with its bytes, an explicit revert with its
/// return bytes, or an abnormal halt with the engine's stated reason.
#[derive(Clone, Debug, PartialEq, Eq)]
pub enum CallOutcome {
    Success(Vec<u8>),
    Revert(Vec<u8>),
    Halt(Vec<u8>),
}

/// The solve result each outcome maps to: a normal return is decoded as one
/// boolean, a revert or halt becomes its own error, a malformed return
/// becomes `DecodeError`.
pub open spec fn classify_spec(o: CallOutcome) -> Result<bool, SolveError> {
    match o {
        CallOutcome::Success(bytes) => match bool_return_spec(bytes@) {
            Some(b) => Ok(b),
            None => Err(SolveError::DecodeError),
        },
        CallOutcome::Revert(bytes) => Err(SolveError::CallReverted(bytes)),
        CallOutcome::Halt(reason) => Err(SolveError::CallHalted(reason)),
    }
}

/// Classifies one execution outcome into the solve result.
pub fn classify_outcome(outcome: CallOutcome) -> (r: Result<bool, SolveError>)
    ensures
        r == classify_spec(outcome),
{
    match outcome {
        CallOutcome::Success(bytes) => decode_bool_return(&bytes),
        CallOutcome::Revert(bytes) => Err(SolveError::CallReverted(bytes)),
        CallOutcome::Halt(reason) => Err(SolveError::CallHalted(reason)),
    }
}

} // verus!
