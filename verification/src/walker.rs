//! The list walker: drives traversal from the start key, reading each node's
//! packed record through the overlay, collecting keys in discovery order,
//! optionally flagging every visited node, until the zero word says the
//! current key has no node. A configured iteration bound guards against
//! storage content that encodes a cycle.

use vstd::prelude::*;

use crate::codec::lemma_set_flag_preserves_fields;
use crate::codec::lemma_set_flag_preserves_next_key;
use crate::codec::next_key;
use crate::codec::next_key_spec;
use crate::codec::set_flag;
use crate::codec::set_flag_spec;
use crate::errors::SolveError;
use crate::overlay::Overlay;
use crate::provider::StateProvider;
use crate::slot::slot_for;
use crate::slot::slot_for_spec;
use crate::word::Address160;
use crate::word::Word256;
use crate::word::is_zero_word;
use crate::word::word_is_zero;

verus! {

/// The layout facts the walker must be given, never derives: the mapping's
/// declaration-order slot index, the key of the first node, and the bound on
/// traversal length beyond which a cycle is suspected.
#[derive(Clone, Copy, Debug, PartialEq, Eq, Structural)]
pub struct WalkConfig {
    pub mapping_slot: Word256,
    pub start_key: Word256,
    pub max_steps: u64,
}

/// A storage as the walker sees it: the word each slot holds.
pub open spec fn overlay_storage<P: StateProvider>(
    ov: Overlay<P>,
    contract: Address160,
) -> spec_fn(Word256) -> Word256 {
    |s: Word256| ov.word_at(contract, s)
}

/// The provider's storage of one account, with no overlay in front.
pub open spec fn provider_storage<P: StateProvider>(
    p: P,
    contract: Address160,
) -> spec_fn(Word256) -> Word256 {
    |s: Word256| p.word_model(contract, s)
}

/// The keys of the list encoded in `storage` from `key` on, in traversal
/// order: empty when `key`'s slot holds the zero word, else `key` followed by
/// the chain from the next key. `None` when the chain does not reach a zero
/// word within `fuel` nodes.
pub open spec fn chain_from(
    storage: spec_fn(Word256) -> Word256,
    mapping_slot: Word256,
    key: Word256,
    fuel: nat,
) -> Option<Seq<Word256>>
    decreases fuel,
{
    let w = storage(slot_for_spec(key, mapping_slot));
    if is_zero_word(w) {
        Some(Seq::empty())
    } else if fuel == 0 {
        None
    } else {
        match chain_from(storage, mapping_slot, next_key_spec(w), (fuel - 1) as nat) {
            Some(rest) => Some(seq![key] + rest),
            None => None,
        }
    }
}

/// Law: the chain depends only on the words the storage holds — two storages
/// equal at every slot encode the same chain.
pub proof fn lemma_chain_from_ext(
    f: spec_fn(Word256) -> Word256,
    g: spec_fn(Word256) -> Word256,
    mapping_slot: Word256,
    key: Word256,
    fuel: nat,
)
    requires
        forall|s: Word256| #[trigger] f(s) == g(s),
    ensures
        chain_from(f, mapping_slot, key, fuel) == chain_from(g, mapping_slot, key, fuel),
    decreases fuel,
{
    let w = f(slot_for_spec(key, mapping_slot));
    if !is_zero_word(w) && fuel > 0 {
        lemma_chain_from_ext(f, g, mapping_slot, next_key_spec(w), (fuel - 1) as nat);
    }
}

/// True when `s` is the derived slot of one of `keys`.
pub open spec fn visited_slot(keys: Seq<Word256>, mapping_slot: Word256, s: Word256) -> bool {
    exists|i: int| 0 <= i < keys.len() && slot_for_spec(keys[i], mapping_slot) == s
}

/// Appending a key to the visited list adds exactly that key's derived slot
/// to the visited slots.
proof fn lemma_visited_push(keys: Seq<Word256>, k: Word256, ms: Word256)
    ensures
        forall|s: Word256|
            #[trigger] visited_slot(keys.push(k), ms, s) <==> (visited_slot(keys, ms, s)
                || slot_for_spec(k, ms) == s),
{
    let keys2 = keys.push(k);
    assert forall|s: Word256|
        #[trigger] visited_slot(keys2, ms, s) <==> (visited_slot(keys, ms, s) || slot_for_spec(
            k,
            ms,
        ) == s) by {
        if visited_slot(keys2, ms, s) {
            let i = choose|i: int| 0 <= i < keys2.len() && slot_for_spec(keys2[i], ms) == s;
            if i < keys.len() {
                assert(keys[i] == keys2[i]);
                assert(visited_slot(keys, ms, s));
            } else {
                assert(keys2[i] == k);
            }
        }
        if visited_slot(keys, ms, s) {
            let i = choose|i: int| 0 <= i < keys.len() && slot_for_spec(keys[i], ms) == s;
            assert(keys2[i] == keys[i]);
            assert(visited_slot(keys2, ms, s));
        }
        if slot_for_spec(k, ms) == s {
            assert(keys2[keys.len() as int] == k);
            assert(visited_slot(keys2, ms, s));
        }
    }
}

/// Walks the list from `config.start_key`, reading through `overlay`;
/// returns the keys in discovery order. In mutating mode every visited
/// node's record is rewritten with its flag set before moving on.
///
/// On success the keys are exactly the chain the overlay's initial state
/// encodes; `CycleSuspected` reports that the chain does not end within
/// `config.max_steps` nodes; a failed read aborts the walk with that error.
/// Whatever the outcome, only the walked contract's storage is ever
/// rewritten, and each rewrite only sets a record's flag bit.
#[verifier::rlimit(100)]
pub fn walk<P: StateProvider>(
    overlay: &mut Overlay<P>,
    contract: &Address160,
    config: &WalkConfig,
    mutate: bool,
) -> (r: Result<Vec<Word256>, SolveError>)
    ensures
        final(overlay).provider == old(overlay).provider,
        r matches Ok(keys) ==> chain_from(
            overlay_storage(*old(overlay), *contract),
            config.mapping_slot,
            config.start_key,
            config.max_steps as nat,
        ) == Some(keys@),
        r matches Err(e) ==> (e matches SolveError::CycleSuspected || e matches
            SolveError::ReadError(_)),
        r matches Err(SolveError::CycleSuspected) ==> chain_from(
            overlay_storage(*old(overlay), *contract),
            config.mapping_slot,
            config.start_key,
            config.max_steps as nat,
        ) is None,
        !mutate ==> *final(overlay) == *old(overlay),
        forall|a: Address160, s: Word256|
            a != *contract ==> final(overlay).word_at(a, s) == old(overlay).word_at(a, s),
        mutate ==> (r matches Ok(keys) ==> forall|s: Word256|
            final(overlay).word_at(*contract, s) == (if visited_slot(
                keys@,
                config.mapping_slot,
                s,
            ) {
                set_flag_spec(old(overlay).word_at(*contract, s))
            } else {
                old(overlay).word_at(*contract, s)
            })),
        forall|s: Word256|
            final(overlay).word_at(*contract, s) == old(overlay).word_at(*contract, s)
                || final(overlay).word_at(*contract, s) == set_flag_spec(
                old(overlay).word_at(*contract, s),
            ),
{
    let ghost c = *contract;
    let ghost ms = config.mapping_slot;
    let ghost f = overlay_storage(*old(overlay), c);
    let ghost n_max = config.max_steps as nat;

    let mut keys: Vec<Word256> = Vec::new();
    let mut current_key: Word256 = config.start_key;

    loop
        invariant
            overlay.provider == old(overlay).provider,
            keys@.len() <= n_max,
            n_max == config.max_steps as nat,
            ms == config.mapping_slot,
            c == *contract,
            f == overlay_storage(*old(overlay), c),
            forall|s: Word256| #[trigger] f(s) == old(overlay).word_at(c, s),
            !mutate ==> *overlay == *old(overlay),
            forall|a: Address160, s: Word256|
                a != c ==> overlay.word_at(a, s) == old(overlay).word_at(a, s),
            forall|s: Word256|
                #[trigger] overlay.word_at(c, s) == (if mutate && visited_slot(keys@, ms, s) {
                    set_flag_spec(f(s))
                } else {
                    f(s)
                }),
            forall|s: Word256| visited_slot(keys@, ms, s) ==> !is_zero_word(f(s)),
            chain_from(f, ms, config.start_key, n_max) == (match chain_from(
                f,
                ms,
                current_key,
                (n_max - keys@.len()) as nat,
            ) {
                Some(rest) => Some(keys@ + rest),
                None => None::<Seq<Word256>>,
            }),
        decreases n_max - keys@.len(),
    {
        let ghost fuel = (n_max - keys@.len()) as nat;
        let slot = slot_for(&current_key, &config.mapping_slot);
        let ghost slot_g = slot_for_spec(current_key, ms);
        let word = match overlay.read(contract, &slot) {
            Ok(w) => w,
            Err(e) => {
                proof {
                    assert forall|s: Word256|
                        overlay.word_at(c, s) == old(overlay).word_at(c, s) || overlay.word_at(
                            c,
                            s,
                        ) == set_flag_spec(old(overlay).word_at(c, s)) by {
                        assert(f(s) == old(overlay).word_at(c, s));
                        assert(overlay.word_at(c, s) == (if mutate && visited_slot(keys@, ms, s) {
                            set_flag_spec(f(s))
                        } else {
                            f(s)
                        }));
                    }
                }
                return Err(e);
            },
        };
        let ghost orig_w = f(slot_g);
        proof {
            assert(word == overlay.word_at(c, slot_g));
            if mutate && visited_slot(keys@, ms, slot_g) {
                assert(word == set_flag_spec(orig_w));
                lemma_set_flag_preserves_fields(orig_w);
            } else {
                assert(word == orig_w);
            }
        }
        if word_is_zero(&word) {
            proof {
                assert(is_zero_word(orig_w));
                assert(chain_from(f, ms, current_key, fuel) == Some(Seq::<Word256>::empty()));
                assert(keys@ + Seq::<Word256>::empty() =~= keys@);
                assert forall|s: Word256|
                    overlay.word_at(c, s) == old(overlay).word_at(c, s) || overlay.word_at(c, s)
                        == set_flag_spec(old(overlay).word_at(c, s)) by {
                    assert(f(s) == old(overlay).word_at(c, s));
                    assert(overlay.word_at(c, s) == (if mutate && visited_slot(keys@, ms, s) {
                        set_flag_spec(f(s))
                    } else {
                        f(s)
                    }));
                }
                if mutate {
                    assert forall|s: Word256|
                        overlay.word_at(c, s) == (if visited_slot(keys@, ms, s) {
                            set_flag_spec(old(overlay).word_at(c, s))
                        } else {
                            old(overlay).word_at(c, s)
                        }) by {
                        assert(f(s) == old(overlay).word_at(c, s));
                        assert(overlay.word_at(c, s) == (if mutate && visited_slot(keys@, ms, s) {
                            set_flag_spec(f(s))
                        } else {
                            f(s)
                        }));
                    }
                }
            }
            return Ok(keys);
        }
        proof {
            assert(!is_zero_word(orig_w));
        }
        if keys.len() as u64 >= config.max_steps {
            proof {
                assert(keys@.len() == n_max);
                assert(fuel == 0);
                assert(chain_from(f, ms, current_key, fuel) is None);
                assert forall|s: Word256|
                    overlay.word_at(c, s) == old(overlay).word_at(c, s) || overlay.word_at(c, s)
                        == set_flag_spec(old(overlay).word_at(c, s)) by {
                    assert(f(s) == old(overlay).word_at(c, s));
                    assert(overlay.word_at(c, s) == (if mutate && visited_slot(keys@, ms, s) {
                        set_flag_spec(f(s))
                    } else {
                        f(s)
                    }));
                }
            }
            return Err(SolveError::CycleSuspected);
        }
        let ghost keys_old = keys@;
        keys.push(current_key);
        proof {
            lemma_visited_push(keys_old, current_key, ms);
            assert(keys@ == keys_old.push(current_key));
        }
        if mutate {
            let flagged = set_flag(&word);
            proof {
                lemma_set_flag_preserves_fields(orig_w);
                assert(flagged == set_flag_spec(orig_w));
            }
            overlay.write(contract, &slot, &flagged);
        }
        let nk = next_key(&word);
        proof {
            lemma_set_flag_preserves_next_key(orig_w);
            assert(next_key_spec(word) == next_key_spec(orig_w));
            assert(chain_from(f, ms, current_key, fuel) == (match chain_from(
                f,
                ms,
                next_key_spec(orig_w),
                (fuel - 1) as nat,
            ) {
                Some(rest) => Some(seq![current_key] + rest),
                None => None::<Seq<Word256>>,
            }));
            if let Some(rest2) = chain_from(f, ms, next_key_spec(orig_w), (fuel - 1) as nat) {
                assert(keys_old + (seq![current_key] + rest2) =~= keys@ + rest2);
            }
        }
        current_key = nk;
    }
}

} // verus!
