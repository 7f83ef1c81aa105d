//! Splitting the accounts of one slot between the segment that is being
//! filled and the one that follows it.

use crate::accounts_db::FoundStoredAccount;
use crate::append_vec::StoredAccountMeta;
use solana_sdk::clock::Slot;
use solana_sdk::pubkey::Pubkey;
use std::collections::HashMap;
use vstd::prelude::*;

verus! {

/// a set of accounts need to be stored.
/// If there are too many to fit in 'Primary', the rest are put in 'Overflow'
#[derive(Copy, Clone, Debug)]
pub enum StorageSelector {
    Primary,
    Overflow,
}

/// Bytes that each entry takes when it is written, in the order of `entries`.
pub open spec fn footprints<'a>(entries: Seq<(&'a Pubkey, &'a FoundStoredAccount<'a>)>) -> Seq<nat> {
    Seq::new(entries.len(), |i: int| entries[i].1.account_size as nat)
}

/// Bytes that the first `n` of `sizes` need together.
pub open spec fn bytes_needed(sizes: Seq<nat>, n: int) -> nat
    decreases n,
{
    if n <= 0 {
        0
    } else {
        bytes_needed(sizes, n - 1) + sizes[n - 1]
    }
}

/// The first `k` of `sizes` fit into `budget` together, and the one after
/// them, if there is one, no longer does.
pub open spec fn splits_at(budget: nat, sizes: Seq<nat>, k: int) -> bool {
    &&& 0 <= k <= sizes.len()
    &&& bytes_needed(sizes, k) <= budget
    &&& k < sizes.len() ==> bytes_needed(sizes, k + 1) > budget
}

/// What is written for one entry: the id stored with the account, the
/// account itself, and the slot it is written under.
pub open spec fn planned_account<'a>(
    entry: (&'a Pubkey, &'a FoundStoredAccount<'a>),
    slot: Slot,
) -> (&'a Pubkey, &'a StoredAccountMeta<'a>, Slot) {
    (&entry.1.account.meta.pubkey, &entry.1.account, slot)
}

/// `planned_account` of every entry, in order.
pub open spec fn planned_accounts<'a>(
    entries: Seq<(&'a Pubkey, &'a FoundStoredAccount<'a>)>,
    slot: Slot,
) -> Seq<(&'a Pubkey, &'a StoredAccountMeta<'a>, Slot)> {
    Seq::new(entries.len(), |i: int| planned_account(entries[i], slot))
}

/// The content hash of every entry, in order.
pub open spec fn planned_hashes<'a>(
    entries: Seq<(&'a Pubkey, &'a FoundStoredAccount<'a>)>,
) -> Seq<&'a solana_sdk::hash::Hash> {
    Seq::new(entries.len(), |i: int| entries[i].1.account.hash)
}

/// `entries` holds every key of `map` once, each with the value that `map`
/// has for it, in some order.
pub open spec fn is_walk_of<'a>(
    entries: Seq<(&'a Pubkey, &'a FoundStoredAccount<'a>)>,
    map: Map<Pubkey, FoundStoredAccount<'a>>,
) -> bool {
    &&& forall|i: int|
        0 <= i < entries.len() ==> map.contains_key(*(#[trigger] entries[i]).0) && map[*entries[i].0]
            == *entries[i].1
    &&& forall|i: int, j: int|
        0 <= i < j < entries.len() ==> *(#[trigger] entries[i]).0 != *(#[trigger] entries[j]).0
    &&& forall|key: Pubkey| #[trigger]
        map.contains_key(key) ==> exists|i: int|
            0 <= i < entries.len() && *(#[trigger] entries[i]).0 == key
}

/// A walk is as long as its map has keys.
pub proof fn lemma_walk_has_every_key_once<'a>(
    entries: Seq<(&'a Pubkey, &'a FoundStoredAccount<'a>)>,
    map: Map<Pubkey, FoundStoredAccount<'a>>,
)
    requires
        is_walk_of(entries, map),
    ensures
        map.dom().finite(),
        entries.len() == map.len(),
{
    let keys = Seq::new(entries.len(), |i: int| *entries[i].0);
    assert(keys.no_duplicates()) by {
        assert forall|i: int, j: int| 0 <= i < keys.len() && 0 <= j < keys.len() && i != j implies keys[i]
            != keys[j] by {
            if i < j {
                assert(*entries[i].0 != *entries[j].0);
            } else {
                assert(*entries[j].0 != *entries[i].0);
            }
        }
    }
    assert(keys.to_set() =~= map.dom()) by {
        assert forall|key: Pubkey| map.contains_key(key) implies keys.contains(key) by {
            let i = choose|i: int| 0 <= i < entries.len() && *(#[trigger] entries[i]).0 == key;
            assert(keys[i] == key);
        }
        assert forall|key: Pubkey| keys.contains(key) implies map.contains_key(key) by {
            let i = choose|i: int| 0 <= i < keys.len() && keys[i] == key;
            assert(map.contains_key(*entries[i].0));
        }
    }
    vstd::seq_lib::seq_to_set_is_finite(keys);
    keys.unique_seq_to_set();
}

/// `HashMap::iter`, collected: the pairs of `stored_accounts` in the order
/// in which the map hands them out. The order is the map's own and differs
/// from run to run, so the contract names none: it says that every pair of
/// the map comes, and no key twice. This is taken on trust from the
/// standard library, and holds of a map whose keys hash and compare by
/// their bytes, as `Pubkey` does.
#[verifier::external_body]
fn entries_in_map_order<'a>(stored_accounts: &'a HashMap<Pubkey, FoundStoredAccount<'a>>) -> (entries:
    Vec<(&'a Pubkey, &'a FoundStoredAccount<'a>)>)
    ensures
        is_walk_of(entries@, stored_accounts@),
{
    stored_accounts.iter().collect()
}

/// The more accounts, the more bytes they need.
proof fn lemma_bytes_needed_grows(sizes: Seq<nat>, m: int, n: int)
    requires
        m <= n,
    ensures
        bytes_needed(sizes, m) <= bytes_needed(sizes, n),
    decreases n - m,
{
    if m < n {
        lemma_bytes_needed_grows(sizes, m, n - 1);
    }
}

/// Accounts that each need nothing need nothing together.
proof fn lemma_nothing_needed(sizes: Seq<nat>, n: int)
    requires
        n <= sizes.len(),
        forall|i: int| 0 <= i < n ==> #[trigger] sizes[i] == 0,
    ensures
        bytes_needed(sizes, n) == 0,
    decreases n,
{
    if n > 0 {
        lemma_nothing_needed(sizes, n - 1);
    }
}

/// A budget splits a sequence of sizes at one place only.
pub proof fn lemma_split_is_unique(budget: nat, sizes: Seq<nat>, j: int, k: int)
    requires
        splits_at(budget, sizes, j),
        splits_at(budget, sizes, k),
    ensures
        j == k,
{
    if j < k {
        lemma_bytes_needed_grows(sizes, j + 1, k);
    }
    if k < j {
        lemma_bytes_needed_grows(sizes, k + 1, j);
    }
}

/// Every budget splits every sequence of sizes somewhere.
pub proof fn lemma_split_exists(budget: nat, sizes: Seq<nat>) -> (k: int)
    ensures
        splits_at(budget, sizes, k),
{
    lemma_split_exists_from(budget, sizes, 0)
}

proof fn lemma_split_exists_from(budget: nat, sizes: Seq<nat>, from: int) -> (k: int)
    requires
        0 <= from <= sizes.len(),
        bytes_needed(sizes, from) <= budget,
    ensures
        splits_at(budget, sizes, k),
    decreases sizes.len() - from,
{
    if from < sizes.len() && bytes_needed(sizes, from + 1) <= budget {
        lemma_split_exists_from(budget, sizes, from + 1)
    } else {
        from
    }
}

/// reference a set of accounts to store
/// The accounts may have to be split between 2 storages (primary and overflow) if there is not enough room in the primary storage.
/// The 'store' functions need data stored in a slice of specific type.
/// We need 1-2 of these slices constructed based on available bytes and individual account sizes.
pub struct AccountsToStore<'a> {
    hashes: Vec<&'a solana_sdk::hash::Hash>,
    accounts: Vec<(&'a Pubkey, &'a StoredAccountMeta<'a>, Slot)>,
    /// if 'accounts' contains more items than can be contained in the primary storage, then we have to split these accounts.
    /// 'index_first_item_overflow' specifies the index of the first item in 'accounts' that will go into the overflow storage
    index_first_item_overflow: usize,
}

impl<'a> AccountsToStore<'a> {
    /// The two lists are index-aligned and the split lies within them.
    #[verifier::type_invariant]
    pub closed spec fn wf(&self) -> bool {
        &&& self.hashes@.len() == self.accounts@.len()
        &&& self.index_first_item_overflow <= self.accounts@.len()
    }

    /// Every account to store, primary ones first.
    pub closed spec fn accounts(&self) -> Seq<(&'a Pubkey, &'a StoredAccountMeta<'a>, Slot)> {
        self.accounts@
    }

    /// The hash of every account to store, aligned with `accounts`.
    pub closed spec fn hashes(&self) -> Seq<&'a solana_sdk::hash::Hash> {
        self.hashes@
    }

    /// Index of the first account that goes to the overflow storage.
    pub closed spec fn first_overflow(&self) -> int {
        self.index_first_item_overflow as int
    }

    /// `self` is the split of `entries` for a primary storage with
    /// `available_bytes` free, written under `slot`.
    pub open spec fn partitions(
        &self,
        available_bytes: u64,
        entries: Seq<(&'a Pubkey, &'a FoundStoredAccount<'a>)>,
        slot: Slot,
    ) -> bool {
        &&& self.accounts() == planned_accounts(entries, slot)
        &&& self.hashes() == planned_hashes(entries)
        &&& splits_at(available_bytes as nat, footprints(entries), self.first_overflow())
    }

    /// First index of the range that `storage` selects.
    pub open spec fn selected_start(&self, storage: StorageSelector) -> int {
        match storage {
            StorageSelector::Primary => 0,
            StorageSelector::Overflow => self.first_overflow(),
        }
    }

    /// Index after the last of the range that `storage` selects.
    pub open spec fn selected_end(&self, storage: StorageSelector) -> int {
        match storage {
            StorageSelector::Primary => self.first_overflow(),
            StorageSelector::Overflow => self.accounts().len() as int,
        }
    }

    /// The accounts that go to `storage`.
    pub open spec fn selected_accounts(&self, storage: StorageSelector) -> Seq<
        (&'a Pubkey, &'a StoredAccountMeta<'a>, Slot),
    > {
        self.accounts().subrange(self.selected_start(storage), self.selected_end(storage))
    }

    /// The hashes of the accounts that go to `storage`.
    pub open spec fn selected_hashes(&self, storage: StorageSelector) -> Seq<
        &'a solana_sdk::hash::Hash,
    > {
        self.hashes().subrange(self.selected_start(storage), self.selected_end(storage))
    }

    /// The account at index `i` goes to the primary storage.
    pub open spec fn in_primary(&self, i: int) -> bool {
        0 <= i < self.first_overflow()
    }

    /// The account at index `i` goes to the overflow storage.
    pub open spec fn in_overflow(&self, i: int) -> bool {
        self.first_overflow() <= i < self.accounts().len()
    }

    /// break 'stored_accounts' into primary and overflow
    /// available_bytes: how many bytes remain in the primary storage. Excess accounts will be directed to an overflow storage
    ///
    /// The accounts are taken in the order in which the map hands them out,
    /// so the result is the split of one of the map's orders.
    pub fn new(
        available_bytes: u64,
        stored_accounts: &'a HashMap<Pubkey, FoundStoredAccount<'a>>,
        slot: Slot,
    ) -> (plan: Self)
        ensures
            plan.wf(),
            exists|walk: Seq<(&'a Pubkey, &'a FoundStoredAccount<'a>)>|
                #[trigger] is_walk_of(walk, stored_accounts@) && plan.partitions(
                    available_bytes,
                    walk,
                    slot,
                ),
            plan.accounts().len() == stored_accounts@.len(),
            plan.hashes().len() == stored_accounts@.len(),
    {
        let entries = entries_in_map_order(stored_accounts);
        let plan = Self::from_ordered(available_bytes, entries.as_slice(), slot);
        proof {
            lemma_walk_has_every_key_once(entries@, stored_accounts@);
        }
        plan
    }

    /// break 'entries' into primary and overflow, in the order given
    /// available_bytes: how many bytes remain in the primary storage. Excess accounts will be directed to an overflow storage
    pub fn from_ordered(
        available_bytes: u64,
        entries: &[(&'a Pubkey, &'a FoundStoredAccount<'a>)],
        slot: Slot,
    ) -> (plan: Self)
        ensures
            plan.wf(),
            plan.partitions(available_bytes, entries@, slot),
    {
        let ghost sizes = footprints(entries@);
        let num_accounts = entries.len();
        let mut remaining: u64 = available_bytes;
        let mut hashes = Vec::with_capacity(num_accounts);
        let mut accounts = Vec::with_capacity(num_accounts);
        // index of the first account that doesn't fit in the current append vec
        let mut index_first_item_overflow = num_accounts;  // assume all fit
        let mut i: usize = 0;
        while i < num_accounts
            invariant
                num_accounts == entries@.len(),
                sizes == footprints(entries@),
                i <= num_accounts,
                hashes@.len() == i,
                accounts@.len() == i,
                forall|j: int| 0 <= j < i ==> hashes@[j] == entries@[j].1.account.hash,
                forall|j: int| 0 <= j < i ==> accounts@[j] == planned_account(entries@[j], slot),
                index_first_item_overflow == num_accounts ==> bytes_needed(sizes, i as int)
                    + remaining == available_bytes,
                index_first_item_overflow != num_accounts ==> {
                    &&& index_first_item_overflow < i
                    &&& remaining == 0
                    &&& splits_at(available_bytes as nat, sizes, index_first_item_overflow as int)
                },
            decreases num_accounts - i,
        {
            let account = entries[i].1;
            let account_size = account.account_size as u64;
            if remaining >= account_size {
                remaining = remaining.saturating_sub(account_size);
            } else if index_first_item_overflow == num_accounts {
                remaining = 0;
                // the # of accounts we have so far seen is the most that will fit in the current ancient append vec
                index_first_item_overflow = hashes.len();
            }
            hashes.push(account.account.hash);
            // we have to specify 'slot' here because we are writing to an ancient append vec and squashing slots,
            // so we need to update the previous accounts index entry for this account from 'slot' to 'ancient_slot'
            accounts.push((&account.account.meta.pubkey, &account.account, slot));
            i += 1;
        }
        proof {
            assert(accounts@ =~= planned_accounts(entries@, slot));
            assert(hashes@ =~= planned_hashes(entries@));
        }
        AccountsToStore { hashes, accounts, index_first_item_overflow }
    }

    /// get the accounts and hashes to store in the given 'storage'
    pub fn get(&self, storage: StorageSelector) -> (selected: (
        &[(&'a Pubkey, &'a StoredAccountMeta<'a>, Slot)],
        &[&'a solana_sdk::hash::Hash],
    ))
        ensures
            selected.0@ == self.selected_accounts(storage),
            selected.1@ == self.selected_hashes(storage),
    {
        proof {
            use_type_invariant(self);
        }
        let (start, end) = match storage {
            StorageSelector::Primary => (0, self.index_first_item_overflow),
            StorageSelector::Overflow => (self.index_first_item_overflow, self.accounts.len()),
        };
        (&self.accounts[start..end], &self.hashes[start..end])
    }

    /// The primary accounts followed by the overflow accounts are all the
    /// accounts, in the order of the input, and the same holds of the
    /// hashes: nothing is left out and nothing comes twice. Each selection
    /// has as many hashes as accounts.
    pub proof fn lemma_selections_partition(
        self,
        available_bytes: u64,
        entries: Seq<(&'a Pubkey, &'a FoundStoredAccount<'a>)>,
        slot: Slot,
    )
        requires
            self.wf(),
            self.partitions(available_bytes, entries, slot),
        ensures
            self.selected_accounts(StorageSelector::Primary) + self.selected_accounts(
                StorageSelector::Overflow,
            ) == planned_accounts(entries, slot),
            self.selected_hashes(StorageSelector::Primary) + self.selected_hashes(
                StorageSelector::Overflow,
            ) == planned_hashes(entries),
            self.selected_accounts(StorageSelector::Primary).len() + self.selected_accounts(
                StorageSelector::Overflow,
            ).len() == entries.len(),
            self.selected_hashes(StorageSelector::Primary).len() == self.selected_accounts(
                StorageSelector::Primary,
            ).len(),
            self.selected_hashes(StorageSelector::Overflow).len() == self.selected_accounts(
                StorageSelector::Overflow,
            ).len(),
            forall|i: int|
                0 <= i < entries.len() ==> (#[trigger] self.in_primary(i)) != self.in_overflow(i),
            forall|i: int| #[trigger]
                self.in_primary(i) ==> self.selected_accounts(StorageSelector::Primary)[i]
                    == planned_account(entries[i], slot),
            forall|i: int| #[trigger]
                self.in_overflow(i) ==> self.selected_accounts(StorageSelector::Overflow)[i
                    - self.first_overflow()] == planned_account(entries[i], slot),
    {
        assert(self.selected_accounts(StorageSelector::Primary) + self.selected_accounts(
            StorageSelector::Overflow,
        ) =~= self.accounts());
        assert(self.selected_hashes(StorageSelector::Primary) + self.selected_hashes(
            StorageSelector::Overflow,
        ) =~= self.hashes());
    }

    /// The primary accounts never need more than the bytes that were
    /// available.
    pub proof fn lemma_primary_fits(
        self,
        available_bytes: u64,
        entries: Seq<(&'a Pubkey, &'a FoundStoredAccount<'a>)>,
        slot: Slot,
    )
        requires
            self.wf(),
            self.partitions(available_bytes, entries, slot),
        ensures
            bytes_needed(footprints(entries), self.selected_accounts(StorageSelector::Primary).len() as int)
                <= available_bytes,
    {
    }

    /// Where all the accounts together need no more than the bytes that are
    /// available, none goes to the overflow storage.
    pub proof fn lemma_no_overflow_when_all_fit(
        self,
        available_bytes: u64,
        entries: Seq<(&'a Pubkey, &'a FoundStoredAccount<'a>)>,
        slot: Slot,
    )
        requires
            self.wf(),
            self.partitions(available_bytes, entries, slot),
            bytes_needed(footprints(entries), entries.len() as int) <= available_bytes,
        ensures
            self.first_overflow() == entries.len(),
            self.selected_accounts(StorageSelector::Overflow).len() == 0,
            self.selected_hashes(StorageSelector::Overflow).len() == 0,
            self.selected_accounts(StorageSelector::Primary) == planned_accounts(entries, slot),
    {
        let sizes = footprints(entries);
        if self.first_overflow() < entries.len() {
            lemma_bytes_needed_grows(sizes, self.first_overflow() + 1, entries.len() as int);
        }
        assert(self.selected_accounts(StorageSelector::Primary) =~= self.accounts());
    }

    /// With no bytes available, an account that needs any goes to the
    /// overflow storage, and so does every account after it. The split lies
    /// at the first such account: the accounts before it need nothing and
    /// stay primary.
    pub proof fn lemma_nothing_available(
        self,
        entries: Seq<(&'a Pubkey, &'a FoundStoredAccount<'a>)>,
        slot: Slot,
        j: int,
    )
        requires
            self.wf(),
            self.partitions(0, entries, slot),
            0 <= j < entries.len(),
            entries[j].1.account_size > 0,
        ensures
            forall|i: int| j <= i < entries.len() ==> #[trigger] self.in_overflow(i),
            (forall|i: int| 0 <= i < j ==> (#[trigger] entries[i]).1.account_size == 0)
                ==> self.first_overflow() == j,
    {
        let sizes = footprints(entries);
        let k = self.first_overflow();
        if j < k {
            lemma_bytes_needed_grows(sizes, j + 1, k);
        }
        if forall|i: int| 0 <= i < j ==> (#[trigger] entries[i]).1.account_size == 0 {
            lemma_nothing_needed(sizes, j);
            lemma_split_is_unique(0, sizes, j, k);
        }
    }

    /// The split lies at the first account that no longer fits, whatever
    /// follows it: that account and all after it go to the overflow
    /// storage, also those that are small enough for the bytes that are
    /// left over.
    pub proof fn lemma_split_at_first_deficit(
        self,
        available_bytes: u64,
        entries: Seq<(&'a Pubkey, &'a FoundStoredAccount<'a>)>,
        slot: Slot,
        j: int,
    )
        requires
            self.wf(),
            self.partitions(available_bytes, entries, slot),
            0 <= j < entries.len(),
            bytes_needed(footprints(entries), j) <= available_bytes,
            bytes_needed(footprints(entries), j) + entries[j].1.account_size > available_bytes,
        ensures
            self.first_overflow() == j,
            forall|i: int| 0 <= i < j ==> #[trigger] self.in_primary(i),
            forall|i: int| j <= i < entries.len() ==> #[trigger] self.in_overflow(i),
    {
        lemma_split_is_unique(
            available_bytes as nat,
            footprints(entries),
            j,
            self.first_overflow(),
        );
    }
}

} // verus!
