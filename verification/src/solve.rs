//! The solve orchestrator, split at the execution-engine boundary.
//!
//! `prepare_solve` does everything up to the call: it builds the overlay,
//! checks that the contract account exists, walks the list in mutating mode,
//! and encodes the `isSolved` calldata. The caller then executes that
//! calldata against the overlay's state with its execution engine and hands
//! the reported outcome to `classify_outcome`, whose result is the solve
//! result.

use vstd::prelude::*;

use crate::call::encode_is_solved_call;
use crate::call::is_solved_calldata;
use crate::codec::set_flag_spec;
use crate::errors::SolveError;
use crate::overlay::Overlay;
use crate::provider::StateProvider;
use crate::walker::WalkConfig;
use crate::walker::chain_from;
use crate::walker::lemma_chain_from_ext;
use crate::walker::overlay_storage;
use crate::walker::provider_storage;
use crate::walker::visited_slot;
use crate::walker::walk;
use crate::word::Address160;
use crate::word::Word256;

verus! {

/// Everything the execution engine needs for the final call: the overlay
/// whose pending writes carry the flipped flags, the keys in discovery
/// order, and the encoded calldata.
pub struct PreparedCall<P> {
    pub overlay: Overlay<P>,
    pub keys: Vec<Word256>,
    pub calldata: Vec<u8>,
}

/// Prepares one solve attempt against `contract` over `provider`: checks the
/// account, walks the list in mutating mode from `config.start_key`, and
/// encodes the call over the collected keys.
///
/// On success the keys are exactly the chain the provider's storage encodes,
/// the calldata encodes them, the overlay holds the provider's words with
/// the flag set at every visited slot and nothing else changed, and the
/// contract account exists. Each error names its cause: `AccountNotFound`
/// exactly when the provider knows no account there, `CycleSuspected`
/// exactly when the chain does not end within `config.max_steps` nodes, and
/// the provider errors when a query failed.
pub fn prepare_solve<P: StateProvider>(
    provider: P,
    contract: &Address160,
    config: &WalkConfig,
) -> (r: Result<PreparedCall<P>, SolveError>)
    ensures
        r matches Ok(p) ==> {
            &&& chain_from(
                provider_storage(provider, *contract),
                config.mapping_slot,
                config.start_key,
                config.max_steps as nat,
            ) == Some(p.keys@)
            &&& p.calldata@ == is_solved_calldata(p.keys@)
            &&& provider.account_model(*contract) is Some
            &&& p.overlay.provider == provider
            &&& forall|s: Word256|
                p.overlay.word_at(*contract, s) == (if visited_slot(
                    p.keys@,
                    config.mapping_slot,
                    s,
                ) {
                    set_flag_spec(provider.word_model(*contract, s))
                } else {
                    provider.word_model(*contract, s)
                })
            &&& forall|a: Address160, s: Word256|
                a != *contract ==> p.overlay.word_at(a, s) == provider.word_model(a, s)
        },
        r matches Err(SolveError::AccountNotFound) ==> provider.account_model(*contract) is None,
        r matches Err(SolveError::CycleSuspected) ==> chain_from(
            provider_storage(provider, *contract),
            config.mapping_slot,
            config.start_key,
            config.max_steps as nat,
        ) is None,
        r matches Err(e) ==> (e matches SolveError::AccountNotFound || e matches
            SolveError::ProviderError(_) || e matches SolveError::ReadError(_) || e matches
            SolveError::CycleSuspected),
{
    let ghost c = *contract;
    let ghost ms = config.mapping_slot;
    let mut overlay = Overlay::new(provider);
    let ghost ov0 = overlay;
    proof {
        assert forall|s: Word256|
            #[trigger] overlay_storage(ov0, c)(s) == provider_storage(provider, c)(s) by {
            assert(ov0.word_at(c, s) == provider.word_model(c, s));
        }
        lemma_chain_from_ext(
            overlay_storage(ov0, c),
            provider_storage(provider, c),
            ms,
            config.start_key,
            config.max_steps as nat,
        );
    }
    match overlay.basic_account(contract) {
        Ok(_) => {},
        Err(e) => {
            return Err(e);
        },
    }
    let keys = match walk(&mut overlay, contract, config, true) {
        Ok(k) => k,
        Err(e) => {
            return Err(e);
        },
    };
    proof {
        assert forall|s: Word256|
            overlay.word_at(c, s) == (if visited_slot(keys@, ms, s) {
                set_flag_spec(provider.word_model(c, s))
            } else {
                provider.word_model(c, s)
            }) by {
            assert(ov0.word_at(c, s) == provider.word_model(c, s));
        }
        assert forall|a: Address160, s: Word256|
            a != c implies overlay.word_at(a, s) == provider.word_model(a, s) by {
            assert(overlay.word_at(a, s) == ov0.word_at(a, s));
            assert(ov0.word_at(a, s) == provider.word_model(a, s));
        }
    }
    let calldata = encode_is_solved_call(&keys);
    Ok(PreparedCall { overlay, keys, calldata })
}

} // verus!
