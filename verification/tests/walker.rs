use gatelock_solver::codec::decode;
use gatelock_solver::errors::SolveError;
use gatelock_solver::overlay::Overlay;
use gatelock_solver::provider::SeededProvider;
use gatelock_solver::slot::slot_for;
use gatelock_solver::walker::{walk, WalkConfig};
use gatelock_solver::word::{word_from_u64, Address160, Word256};

fn addr(n: u64) -> Address160 {
    Address160 { hi: 0, mid: 0, lo: n }
}

fn record(first: u64, second_low: u64) -> Word256 {
    Word256 { l0: first, l1: second_low, l2: 0, l3: 0 }
}

fn config() -> WalkConfig {
    WalkConfig { mapping_slot: word_from_u64(2), start_key: word_from_u64(0), max_steps: 64 }
}

/// A three-node list at keys {0, 4, 7}: the node at 0 points to 4 through
/// its even first_value, the node at 4 points to 7 through its odd
/// first_value and second_value 7, and the key the node at 7 points to has
/// an unseeded slot, which reads zero and ends the walk.
fn three_node_provider(a: Address160) -> SeededProvider {
    let ms = word_from_u64(2);
    let slot0 = slot_for(&word_from_u64(0), &ms);
    let slot4 = slot_for(&word_from_u64(4), &ms);
    let slot7 = slot_for(&word_from_u64(7), &ms);
    SeededProvider {
        words: vec![
            // first_value 4 is even: next key 4.
            (a, slot0, record(4, 0xdead)),
            // first_value 7 is odd: next key is second_value 7.
            (a, slot4, record(7, 7)),
            // first_value 9 is odd: next key is second_value 0x999, unseeded.
            (a, slot7, record(9, 0x999)),
        ],
        accounts: Vec::new(),
        faults: Vec::new(),
        account_faults: Vec::new(),
    }
}

#[test]
fn walk_returns_finite_prefix_in_order() {
    let a = addr(1);
    let mut overlay = Overlay::new(three_node_provider(a));
    let keys = walk(&mut overlay, &a, &config(), false).unwrap();
    assert_eq!(keys, vec![word_from_u64(0), word_from_u64(4), word_from_u64(7)]);
}

#[test]
fn non_mutating_walk_writes_nothing() {
    let a = addr(1);
    let mut overlay = Overlay::new(three_node_provider(a));
    walk(&mut overlay, &a, &config(), false).unwrap();
    assert!(overlay.writes.is_empty());
    let slot0 = slot_for(&word_from_u64(0), &word_from_u64(2));
    let (_, _, flag) = decode(&overlay.read(&a, &slot0).unwrap());
    assert!(!flag);
}

#[test]
fn mutating_walk_flags_every_visited_node() {
    let a = addr(1);
    let ms = word_from_u64(2);
    let mut overlay = Overlay::new(three_node_provider(a));
    let keys = walk(&mut overlay, &a, &config(), true).unwrap();
    assert_eq!(keys.len(), 3);
    for key in &keys {
        let slot = slot_for(key, &ms);
        let (_, _, flag) = decode(&overlay.read(&a, &slot).unwrap());
        assert!(flag);
    }
    // The fields the traversal reads are untouched by the rewrite.
    let slot0 = slot_for(&word_from_u64(0), &ms);
    let (first, second, _) = decode(&overlay.read(&a, &slot0).unwrap());
    assert_eq!(first, 4);
    assert_eq!(second, word_from_u64(0xdead));
    // The provider itself was never written.
    assert_eq!(overlay.provider.words[0].2, record(4, 0xdead));
}

#[test]
fn empty_list_yields_no_keys() {
    let a = addr(1);
    let provider = SeededProvider {
        words: Vec::new(),
        accounts: Vec::new(),
        faults: Vec::new(),
        account_faults: Vec::new(),
    };
    let mut overlay = Overlay::new(provider);
    let keys = walk(&mut overlay, &a, &config(), true).unwrap();
    assert!(keys.is_empty());
    assert!(overlay.writes.is_empty());
}

#[test]
fn self_loop_is_reported_as_cycle() {
    let a = addr(1);
    let ms = word_from_u64(2);
    let slot0 = slot_for(&word_from_u64(0), &ms);
    // first_value 0 is even, so the next key is 0 again: a self-loop.
    let provider = SeededProvider {
        words: vec![(a, slot0, record(0, 0x1))],
        accounts: Vec::new(),
        faults: Vec::new(),
        account_faults: Vec::new(),
    };
    let mut overlay = Overlay::new(provider);
    let r = walk(&mut overlay, &a, &config(), true);
    assert!(matches!(r, Err(SolveError::CycleSuspected)));
}

#[test]
fn failed_read_aborts_walk() {
    let a = addr(1);
    let ms = word_from_u64(2);
    let slot4 = slot_for(&word_from_u64(4), &ms);
    let mut provider = three_node_provider(a);
    provider.faults.push((a, slot4));
    let mut overlay = Overlay::new(provider);
    let r = walk(&mut overlay, &a, &config(), true);
    assert!(matches!(r, Err(SolveError::ReadError(_))));
}
