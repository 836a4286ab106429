//! A read-through, write-buffering overlay over an external state provider.
//!
//! Reads consult the override entries first and fall through to the provider;
//! writes only ever populate the override entries and never touch the
//! provider, so every write is local to one overlay instance.

use vstd::prelude::*;

use crate::errors::SolveError;
use crate::provider::StateProvider;
use crate::provider::find_word;
use crate::provider::last_word_match;
use crate::word::AccountInfo;
use crate::word::Address160;
use crate::word::Word256;

verus! {

/// The overlay: pending uncommitted writes in front of a borrowed provider.
pub struct Overlay<P> {
    pub provider: P,
    pub writes: Vec<(Address160, Word256, Word256)>,
}

impl<P: StateProvider> Overlay<P> {
    /// The pending override for `(addr, slot)`, if one was written.
    pub open spec fn override_at(&self, addr: Address160, slot: Word256) -> Option<Word256> {
        last_word_match(self.writes@, addr, slot)
    }

    /// The word a read of `(addr, slot)` observes: the override if present,
    /// else what the provider holds.
    pub open spec fn word_at(&self, addr: Address160, slot: Word256) -> Word256 {
        match self.override_at(addr, slot) {
            Some(w) => w,
            None => self.provider.word_model(addr, slot),
        }
    }

    /// Builds an overlay with no pending writes around `provider`.
    pub fn new(provider: P) -> (r: Overlay<P>)
        ensures
            r.provider == provider,
            r.writes@ == Seq::<(Address160, Word256, Word256)>::empty(),
            forall|a: Address160, s: Word256| r.word_at(a, s) == provider.word_model(a, s),
    {
        Overlay { provider, writes: Vec::new() }
    }

    /// Reads one word: the override value if present for `(addr, slot)`,
    /// otherwise the provider's answer; a provider failure is propagated as
    /// `ReadError` and never occurs for an overridden location.
    pub fn read(&self, addr: &Address160, slot: &Word256) -> (r: Result<Word256, SolveError>)
        ensures
            r matches Ok(w) ==> w == self.word_at(*addr, *slot),
            self.override_at(*addr, *slot) matches Some(w) ==> r == Ok::<Word256, SolveError>(w),
            r matches Err(e) ==> (e matches SolveError::ReadError(_) && self.override_at(
                *addr,
                *slot,
            ) is None),
    {
        match find_word(&self.writes, addr, slot) {
            Some(w) => Ok(w),
            None => match self.provider.storage_word(addr, slot) {
                Ok(w) => Ok(w),
                Err(f) => Err(SolveError::ReadError(f)),
            },
        }
    }

    /// Law: a write takes precedence. It unconditionally installs the
    /// override for `(addr, slot)`, so a later read of that location observes
    /// `value` whatever the provider holds there, every other location is
    /// unchanged, and the provider itself is never mutated.
    pub fn write(&mut self, addr: &Address160, slot: &Word256, value: &Word256)
        ensures
            final(self).provider == old(self).provider,
            final(self).writes@ == old(self).writes@.push((*addr, *slot, *value)),
            final(self).override_at(*addr, *slot) == Some(*value),
            forall|a: Address160, s: Word256|
                final(self).word_at(a, s) == (if a == *addr && s == *slot {
                    *value
                } else {
                    old(self).word_at(a, s)
                }),
    {
        self.writes.push((*addr, *slot, *value));
        proof {
            assert(self.writes@.drop_last() =~= old(self).writes@);
            assert(self.writes@.last() == (*addr, *slot, *value));
        }
    }

    /// The provider's account answer, with its failures mapped to this
    /// crate's taxonomy: `AccountNotFound` when the provider knows no account
    /// at `addr`, `ProviderError` when the query itself failed.
    pub fn basic_account(&self, addr: &Address160) -> (r: Result<AccountInfo, SolveError>)
        ensures
            r matches Ok(info) ==> self.provider.account_model(*addr) == Some(info),
            r matches Err(e) ==> (e matches SolveError::AccountNotFound || e matches
                SolveError::ProviderError(_)),
            r matches Err(e) ==> (e matches SolveError::AccountNotFound ==> self.provider.account_model(
                *addr,
            ) is None),
    {
        match self.provider.basic_account(addr) {
            Ok(Some(info)) => Ok(info),
            Ok(None) => Err(SolveError::AccountNotFound),
            Err(f) => Err(SolveError::ProviderError(f)),
        }
    }
}

} // verus!
