//! The read-only state provider the core depends on, and a verified
//! in-memory provider seeded from plain entry lists.

use vstd::prelude::*;

use crate::errors::ProviderFault;
use crate::word::AccountInfo;
use crate::word::Address160;
use crate::word::Word256;
use crate::word::zero_word;

verus! {

/// The last entry of `entries` for `(addr, slot)`, if any.
pub open spec fn last_word_match(
    entries: Seq<(Address160, Word256, Word256)>,
    addr: Address160,
    slot: Word256,
) -> Option<Word256>
    decreases entries.len(),
{
    if entries.len() == 0 {
        None
    } else if entries.last().0 == addr && entries.last().1 == slot {
        Some(entries.last().2)
    } else {
        last_word_match(entries.drop_last(), addr, slot)
    }
}

/// The last entry of `entries` for `addr`, if any.
pub open spec fn last_account_match(
    entries: Seq<(Address160, AccountInfo)>,
    addr: Address160,
) -> Option<AccountInfo>
    decreases entries.len(),
{
    if entries.len() == 0 {
        None
    } else if entries.last().0 == addr {
        Some(entries.last().1)
    } else {
        last_account_match(entries.drop_last(), addr)
    }
}

/// True when `addr` occurs in `addrs`.
pub open spec fn addr_listed(addrs: Seq<Address160>, addr: Address160) -> bool {
    exists|i: int| 0 <= i < addrs.len() && addrs[i] == addr
}

/// Tests whether `addr` occurs in a list of addresses.
pub fn addr_is_listed(addrs: &Vec<Address160>, addr: &Address160) -> (r: bool)
    ensures
        r == addr_listed(addrs@, *addr),
{
    let mut i: usize = 0;
    while i < addrs.len()
        invariant
            i <= addrs@.len(),
            forall|j: int| 0 <= j < i ==> addrs@[j] != *addr,
        decreases addrs@.len() - i,
    {
        if addrs[i] == *addr {
            return true;
        }
        i = i + 1;
    }
    false
}

/// True when `(addr, slot)` occurs in `pairs`.
pub open spec fn pair_listed(
    pairs: Seq<(Address160, Word256)>,
    addr: Address160,
    slot: Word256,
) -> bool {
    exists|i: int| 0 <= i < pairs.len() && pairs[i].0 == addr && pairs[i].1 == slot
}

/// Finds the last entry for `(addr, slot)` in an association list.
pub fn find_word(
    entries: &Vec<(Address160, Word256, Word256)>,
    addr: &Address160,
    slot: &Word256,
) -> (r: Option<Word256>)
    ensures
        r == last_word_match(entries@, *addr, *slot),
{
    let mut i: usize = entries.len();
    proof {
        assert(entries@.take(i as int) =~= entries@);
    }
    while i > 0
        invariant
            i <= entries@.len(),
            last_word_match(entries@, *addr, *slot) == last_word_match(
                entries@.take(i as int),
                *addr,
                *slot,
            ),
        decreases i,
    {
        i = i - 1;
        let e = &entries[i];
        proof {
            assert(entries@.take(i as int + 1).last() == entries@[i as int]);
            assert(entries@.take(i as int + 1).drop_last() =~= entries@.take(i as int));
        }
        if e.0 == *addr && e.1 == *slot {
            return Some(e.2);
        }
    }
    None
}

/// Finds the last entry for `addr` in an association list of accounts.
pub fn find_account(entries: &Vec<(Address160, AccountInfo)>, addr: &Address160) -> (r: Option<
    AccountInfo,
>)
    ensures
        r == last_account_match(entries@, *addr),
{
    let mut i: usize = entries.len();
    proof {
        assert(entries@.take(i as int) =~= entries@);
    }
    while i > 0
        invariant
            i <= entries@.len(),
            last_account_match(entries@, *addr) == last_account_match(
                entries@.take(i as int),
                *addr,
            ),
        decreases i,
    {
        i = i - 1;
        let e = &entries[i];
        proof {
            assert(entries@.take(i as int + 1).last() == entries@[i as int]);
            assert(entries@.take(i as int + 1).drop_last() =~= entries@.take(i as int));
        }
        if e.0 == *addr {
            return Some(e.1);
        }
    }
    None
}

/// Tests whether `(addr, slot)` occurs in a list of pairs.
pub fn pair_is_listed(pairs: &Vec<(Address160, Word256)>, addr: &Address160, slot: &Word256) -> (r:
    bool)
    ensures
        r == pair_listed(pairs@, *addr, *slot),
{
    let mut i: usize = 0;
    while i < pairs.len()
        invariant
            i <= pairs@.len(),
            forall|j: int| 0 <= j < i ==> !(pairs@[j].0 == *addr && pairs@[j].1 == *slot),
        decreases pairs@.len() - i,
    {
        let e = &pairs[i];
        if e.0 == *addr && e.1 == *slot {
            return true;
        }
        i = i + 1;
    }
    false
}

/// The external read-only state source: one account query and one
/// single-slot storage query. Implementations outside this crate supply the
/// live chain state; `SeededProvider` below is the verified in-memory one.
///
/// The two spec functions model what the provider holds; an `Ok` answer must
/// agree with that model, while a provider is free to fail any query.
pub trait StateProvider {
    /// The word held at `(addr, slot)`; the zero word where nothing is stored.
    open spec fn word_model(&self, addr: Address160, slot: Word256) -> Word256 {
        zero_word()
    }

    /// The account at `addr`, if the provider knows one.
    open spec fn account_model(&self, addr: Address160) -> Option<AccountInfo> {
        None
    }

    /// Queries one storage word of `addr`.
    fn storage_word(&self, addr: &Address160, slot: &Word256) -> (r: Result<
        Word256,
        ProviderFault,
    >)
        ensures
            r matches Ok(w) ==> w == self.word_model(*addr, *slot),
    ;

    /// Queries balance and nonce of the account at `addr`.
    fn basic_account(&self, addr: &Address160) -> (r: Result<
        Option<AccountInfo>,
        ProviderFault,
    >)
        ensures
            r matches Ok(a) ==> a == self.account_model(*addr),
    ;
}

/// An in-memory provider seeded from plain entry lists. Slots not listed in
/// `words` hold the zero word; storage queries for pairs listed in `faults`
/// and account queries for addresses listed in `account_faults` fail, so a
/// provider that breaks mid-walk can be built for exercising error paths.
pub struct SeededProvider {
    pub words: Vec<(Address160, Word256, Word256)>,
    pub accounts: Vec<(Address160, AccountInfo)>,
    pub faults: Vec<(Address160, Word256)>,
    pub account_faults: Vec<Address160>,
}

impl StateProvider for SeededProvider {
    open spec fn word_model(&self, addr: Address160, slot: Word256) -> Word256 {
        match last_word_match(self.words@, addr, slot) {
            Some(w) => w,
            None => zero_word(),
        }
    }

    open spec fn account_model(&self, addr: Address160) -> Option<AccountInfo> {
        last_account_match(self.accounts@, addr)
    }

    fn storage_word(&self, addr: &Address160, slot: &Word256) -> (r: Result<
        Word256,
        ProviderFault,
    >) {
        if pair_is_listed(&self.faults, addr, slot) {
            Err(ProviderFault)
        } else {
            match find_word(&self.words, addr, slot) {
                Some(w) => Ok(w),
                None => Ok(crate::word::word_from_u64(0)),
            }
        }
    }

    fn basic_account(&self, addr: &Address160) -> (r: Result<
        Option<AccountInfo>,
        ProviderFault,
    >) {
        if addr_is_listed(&self.account_faults, addr) {
            Err(ProviderFault)
        } else {
            Ok(find_account(&self.accounts, addr))
        }
    }
}

} // verus!
