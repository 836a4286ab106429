//! The error taxonomy of a solve attempt. Every failure is surfaced
//! immediately to the caller; there is no retry or partial result.

use vstd::prelude::*;

verus! {

/// A failure reported by the external state provider itself.
#[derive(Clone, Copy, Debug, PartialEq, Eq, Structural)]
pub struct ProviderFault;

/// Everything that can abort a solve attempt.
#[derive(Clone, Debug, PartialEq, Eq)]
pub enum SolveError {
    /// The provider failed while answering an account query.
    ProviderError(ProviderFault),
    /// The sanity check found no account at the contract address.
    AccountNotFound,
    /// The overlay's read failed because the underlying storage query failed.
    ReadError(ProviderFault),
    /// The executed call reverted; carries the revert's return bytes.
    CallReverted(Vec<u8>),
    /// The execution engine aborted the call; carries its stated reason.
    CallHalted(Vec<u8>),
    /// The call returned bytes that are not a valid boolean encoding.
    DecodeError,
    /// The walk exceeded its iteration bound without meeting a zero word.
    CycleSuspected,
}

} // verus!
