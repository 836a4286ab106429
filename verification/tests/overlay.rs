use gatelock_solver::errors::SolveError;
use gatelock_solver::overlay::Overlay;
use gatelock_solver::provider::SeededProvider;
use gatelock_solver::word::{word_from_u64, AccountInfo, Address160, Word256};

fn addr(n: u64) -> Address160 {
    Address160 { hi: 0, mid: 0, lo: n }
}

fn provider_with(words: Vec<(Address160, Word256, Word256)>) -> SeededProvider {
    SeededProvider { words, accounts: Vec::new(), faults: Vec::new(), account_faults: Vec::new() }
}

#[test]
fn write_takes_precedence_over_provider() {
    let a = addr(1);
    let s = word_from_u64(10);
    let provider = provider_with(vec![(a, s, word_from_u64(7))]);
    let mut overlay = Overlay::new(provider);
    assert_eq!(overlay.read(&a, &s).unwrap(), word_from_u64(7));
    let v = word_from_u64(42);
    overlay.write(&a, &s, &v);
    assert_eq!(overlay.read(&a, &s).unwrap(), v);
    // The backing provider still answers the old value.
    assert_eq!(overlay.provider.words[0].2, word_from_u64(7));
}

#[test]
fn other_slots_fall_through_unchanged() {
    let a = addr(1);
    let s = word_from_u64(10);
    let other = word_from_u64(11);
    let provider = provider_with(vec![(a, s, word_from_u64(7)), (a, other, word_from_u64(9))]);
    let mut overlay = Overlay::new(provider);
    overlay.write(&a, &s, &word_from_u64(42));
    assert_eq!(overlay.read(&a, &other).unwrap(), word_from_u64(9));
    // A different address with the same slot also falls through.
    let b = addr(2);
    assert_eq!(overlay.read(&b, &s).unwrap(), word_from_u64(0));
}

#[test]
fn unseeded_slot_reads_zero() {
    let a = addr(1);
    let overlay = Overlay::new(provider_with(Vec::new()));
    assert_eq!(overlay.read(&a, &word_from_u64(5)).unwrap(), word_from_u64(0));
}

#[test]
fn last_write_wins() {
    let a = addr(1);
    let s = word_from_u64(10);
    let mut overlay = Overlay::new(provider_with(Vec::new()));
    overlay.write(&a, &s, &word_from_u64(1));
    overlay.write(&a, &s, &word_from_u64(2));
    assert_eq!(overlay.read(&a, &s).unwrap(), word_from_u64(2));
}

#[test]
fn read_propagates_provider_fault() {
    let a = addr(1);
    let s = word_from_u64(10);
    let provider = SeededProvider {
        words: Vec::new(),
        accounts: Vec::new(),
        faults: vec![(a, s)],
        account_faults: Vec::new(),
    };
    let mut overlay = Overlay::new(provider);
    assert!(matches!(overlay.read(&a, &s), Err(SolveError::ReadError(_))));
    // An overridden location never consults the provider, so it still reads.
    overlay.write(&a, &s, &word_from_u64(3));
    assert_eq!(overlay.read(&a, &s).unwrap(), word_from_u64(3));
}

#[test]
fn basic_account_delegates() {
    let a = addr(1);
    let info = AccountInfo { balance: word_from_u64(1000), nonce: 5 };
    let provider = SeededProvider {
        words: Vec::new(),
        accounts: vec![(a, info)],
        faults: Vec::new(),
        account_faults: Vec::new(),
    };
    let overlay = Overlay::new(provider);
    assert_eq!(overlay.basic_account(&a).unwrap(), info);
    assert!(matches!(overlay.basic_account(&addr(2)), Err(SolveError::AccountNotFound)));
}

#[test]
fn basic_account_propagates_provider_fault() {
    let a = addr(1);
    let provider = SeededProvider {
        words: Vec::new(),
        accounts: vec![(a, AccountInfo { balance: word_from_u64(0), nonce: 0 })],
        faults: Vec::new(),
        account_faults: vec![a],
    };
    let overlay = Overlay::new(provider);
    assert!(matches!(overlay.basic_account(&a), Err(SolveError::ProviderError(_))));
}
