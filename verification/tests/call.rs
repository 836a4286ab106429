use gatelock_solver::call::{classify_outcome, decode_bool_return, encode_is_solved_call, CallOutcome};
use gatelock_solver::errors::SolveError;
use gatelock_solver::word::{word_from_u64, word_to_be_bytes, Word256};

fn bool_return(last: u8) -> Vec<u8> {
    let mut bytes = vec![0u8; 32];
    bytes[31] = last;
    bytes
}

#[test]
fn calldata_matches_reference_encoding() {
    // Expected bytes built independently: the selector is the first four
    // bytes of keccak256("isSolved(uint256[])"); then the offset word 0x20,
    // the length word, and each element as 32 big-endian bytes.
    let keys = vec![word_from_u64(0), word_from_u64(4), word_from_u64(7)];
    let digest = alloy_primitives::keccak256(b"isSolved(uint256[])");
    let mut expected: Vec<u8> = Vec::new();
    expected.extend_from_slice(&digest.as_slice()[..4]);
    expected.extend_from_slice(&word_to_be_bytes(&word_from_u64(0x20)));
    expected.extend_from_slice(&word_to_be_bytes(&word_from_u64(3)));
    for k in &keys {
        expected.extend_from_slice(&word_to_be_bytes(k));
    }
    assert_eq!(encode_is_solved_call(&keys), expected);
}

#[test]
fn calldata_of_empty_key_list() {
    let digest = alloy_primitives::keccak256(b"isSolved(uint256[])");
    let encoded = encode_is_solved_call(&Vec::new());
    assert_eq!(encoded.len(), 4 + 32 + 32);
    assert_eq!(&encoded[..4], &digest.as_slice()[..4]);
    assert_eq!(&encoded[4..36], word_to_be_bytes(&word_from_u64(0x20)).as_slice());
    assert_eq!(&encoded[36..68], word_to_be_bytes(&word_from_u64(0)).as_slice());
}

#[test]
fn calldata_encodes_full_words() {
    let k = Word256 { l0: 1, l1: 2, l2: 3, l3: 4 };
    let encoded = encode_is_solved_call(&vec![k]);
    assert_eq!(&encoded[68..100], word_to_be_bytes(&k).as_slice());
}

#[test]
fn decode_bool_accepts_strict_encodings() {
    assert_eq!(decode_bool_return(&bool_return(0)).unwrap(), false);
    assert_eq!(decode_bool_return(&bool_return(1)).unwrap(), true);
}

#[test]
fn decode_bool_rejects_malformed_bytes() {
    // Wrong value in the last byte.
    assert!(matches!(decode_bool_return(&bool_return(2)), Err(SolveError::DecodeError)));
    // Wrong length.
    assert!(matches!(decode_bool_return(&vec![0u8; 31]), Err(SolveError::DecodeError)));
    assert!(matches!(decode_bool_return(&Vec::new()), Err(SolveError::DecodeError)));
    // A nonzero byte among the leading 31.
    let mut bytes = bool_return(1);
    bytes[0] = 1;
    assert!(matches!(decode_bool_return(&bytes), Err(SolveError::DecodeError)));
}

#[test]
fn classify_success_decodes_boolean() {
    assert_eq!(classify_outcome(CallOutcome::Success(bool_return(1))).unwrap(), true);
    assert_eq!(classify_outcome(CallOutcome::Success(bool_return(0))).unwrap(), false);
    assert!(matches!(
        classify_outcome(CallOutcome::Success(bool_return(7))),
        Err(SolveError::DecodeError)
    ));
}

#[test]
fn classify_revert_carries_reason_bytes() {
    let reason = vec![0xde, 0xad];
    let r = classify_outcome(CallOutcome::Revert(reason.clone()));
    assert_eq!(r, Err(SolveError::CallReverted(reason)));
}

#[test]
fn classify_halt_carries_reason() {
    let reason = b"out of gas".to_vec();
    let r = classify_outcome(CallOutcome::Halt(reason.clone()));
    assert_eq!(r, Err(SolveError::CallHalted(reason)));
}
