use gatelock_solver::codec::{decode, next_key, set_flag};
use gatelock_solver::word::{word_from_u64, word_is_zero, Word256};

fn record(first: u64, second_low: u64, flag: bool) -> Word256 {
    Word256 { l0: first, l1: second_low, l2: 0, l3: if flag { 1u64 << 32 } else { 0 } }
}

#[test]
fn round_trip_preserves_fields() {
    // An arbitrary word with bits set in every field, including the padding.
    let w = Word256 {
        l0: 0x0123_4567_89ab_cdef,
        l1: 0xfedc_ba98_7654_3210,
        l2: 0xdead_beef_cafe_f00d,
        l3: 0xffff_fffe_ffff_ffff, // bit 224 (limb bit 32) clear, padding bits set
    };
    let (first, second, flag) = decode(&w);
    assert!(!flag);
    let flagged = set_flag(&w);
    let (first2, second2, flag2) = decode(&flagged);
    assert_eq!(first, first2);
    assert_eq!(second, second2);
    assert!(flag2);
    // Only bit 224 differs: the padding above it and everything below survive.
    assert_eq!(flagged.l0, w.l0);
    assert_eq!(flagged.l1, w.l1);
    assert_eq!(flagged.l2, w.l2);
    assert_eq!(flagged.l3, w.l3 | (1u64 << 32));
    assert_eq!(flagged.l3 & !(1u64 << 32), w.l3 & !(1u64 << 32));
    // Setting the flag twice is the same as once.
    assert_eq!(set_flag(&flagged), flagged);
}

#[test]
fn field_extraction_boundary() {
    let max = Word256 { l0: u64::MAX, l1: u64::MAX, l2: u64::MAX, l3: u64::MAX };
    let (first, second, flag) = decode(&max);
    assert_eq!(first, u64::MAX);
    // (1 << 160) - 1: low 160 bits all set.
    assert_eq!(second, Word256 { l0: u64::MAX, l1: u64::MAX, l2: 0xffff_ffff, l3: 0 });
    assert!(flag);
}

#[test]
fn decode_zero_word() {
    let zero = word_from_u64(0);
    assert!(word_is_zero(&zero));
    let (first, second, flag) = decode(&zero);
    assert_eq!(first, 0);
    assert_eq!(second, word_from_u64(0));
    assert!(!flag);
}

#[test]
fn flagged_word_is_not_zero() {
    let zero = word_from_u64(0);
    assert!(!word_is_zero(&set_flag(&zero)));
}

#[test]
fn parity_tie_break_even() {
    // first_value even (4): the next key is 4 widened to 256 bits.
    let w = record(4, 0xabc, false);
    assert_eq!(next_key(&w), word_from_u64(4));
}

#[test]
fn parity_tie_break_odd() {
    // first_value odd (5): the next key is second_value, not 5.
    let w = record(5, 0xabc, false);
    assert_eq!(next_key(&w), word_from_u64(0xabc));
    assert_ne!(next_key(&w), word_from_u64(5));
}

#[test]
fn next_key_unchanged_by_flag() {
    let even = record(4, 0xabc, false);
    assert_eq!(next_key(&set_flag(&even)), next_key(&even));
    let odd = record(5, 0xabc, false);
    assert_eq!(next_key(&set_flag(&odd)), next_key(&odd));
}
