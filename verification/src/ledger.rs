//! The stake ledger: how much value each voter has committed to each side of
//! each proposal, in each asset. Amounts only ever grow.

use vstd::prelude::*;
use vstd::std_specs::cmp::PartialEqSpecImpl;
use crate::account::AccountId;

verus! {

/// An amount of value.
pub type Balance = u128;

/// What a stake is recorded under: the proposal, the voter, the side taken
/// and the asset the value is denominated in.
#[derive(Clone, Copy, Debug, Eq, Hash)]
pub struct StakeKey {
    pub proposal_id: u32,
    pub voter: AccountId,
    pub in_favor: bool,
    pub asset_id: u32,
}

impl PartialEq for StakeKey {
    fn eq(&self, other: &StakeKey) -> (r: bool) {
        self.proposal_id == other.proposal_id && self.in_favor == other.in_favor
            && self.asset_id == other.asset_id && self.voter == other.voter
    }
}

impl PartialEqSpecImpl for StakeKey {
    open spec fn obeys_eq_spec() -> bool {
        true
    }

    open spec fn eq_spec(&self, other: &StakeKey) -> bool {
        *self == *other
    }
}

/// One line of the ledger: a key and the value accumulated under it.
#[derive(Clone, Copy, Debug, PartialEq, Eq)]
pub struct StakeEntry {
    pub key: StakeKey,
    pub amount: Balance,
}

/// The amount that a table of stakes holds under `key`: zero where it has no
/// entry.
pub open spec fn stake_of(stakes: Map<StakeKey, nat>, key: StakeKey) -> nat {
    if stakes.dom().contains(key) {
        stakes[key]
    } else {
        0
    }
}

/// The table that a list of entries stands for.
pub open spec fn entries_map(entries: Seq<StakeEntry>) -> Map<StakeKey, nat>
    decreases entries.len(),
{
    if entries.len() == 0 {
        Map::empty()
    } else {
        entries_map(entries.drop_last()).insert(entries.last().key, entries.last().amount as nat)
    }
}

/// No two entries of the list share a key.
pub open spec fn distinct_keys(entries: Seq<StakeEntry>) -> bool {
    forall|i: int, j: int|
        0 <= i < j < entries.len() ==> (#[trigger] entries[i]).key != (#[trigger] entries[j]).key
}

/// A key has an entry in the table exactly when some line of the list carries
/// it.
pub proof fn lemma_entries_map_dom(entries: Seq<StakeEntry>, key: StakeKey)
    ensures
        entries_map(entries).dom().contains(key) <==> exists|i: int|
            0 <= i < entries.len() && (#[trigger] entries[i]).key == key,
    decreases entries.len(),
{
    if entries.len() > 0 {
        let front = entries.drop_last();
        lemma_entries_map_dom(front, key);
        if entries_map(entries).dom().contains(key) {
            if entries.last().key == key {
                assert(entries[entries.len() - 1].key == key);
            } else {
                let i = choose|i: int| 0 <= i < front.len() && (#[trigger] front[i]).key == key;
                assert(entries[i].key == key);
            }
        }
        if exists|i: int| 0 <= i < entries.len() && (#[trigger] entries[i]).key == key {
            let i = choose|i: int| 0 <= i < entries.len() && (#[trigger] entries[i]).key == key;
            if i < front.len() {
                assert(front[i].key == key);
            }
        }
    }
}

/// Where keys are distinct, the table holds under each line's key that
/// line's amount.
pub proof fn lemma_entries_map_at(entries: Seq<StakeEntry>, i: int)
    requires
        distinct_keys(entries),
        0 <= i < entries.len(),
    ensures
        entries_map(entries).dom().contains(entries[i].key),
        entries_map(entries)[entries[i].key] == entries[i].amount,
    decreases entries.len(),
{
    let front = entries.drop_last();
    if i < entries.len() - 1 {
        assert(distinct_keys(front)) by {
            assert forall|a: int, b: int| 0 <= a < b < front.len() implies (#[trigger] front[a]).key
                != (#[trigger] front[b]).key by {
                assert(entries[a].key != entries[b].key);
            }
        }
        lemma_entries_map_at(front, i);
        assert(front[i] == entries[i]);
        assert(entries[i].key != entries[entries.len() - 1].key);
    }
}

/// Replacing the amount of one line replaces the amount under its key and
/// nothing else.
pub proof fn lemma_entries_map_update(entries: Seq<StakeEntry>, i: int, amount: Balance)
    requires
        distinct_keys(entries),
        0 <= i < entries.len(),
    ensures
        entries_map(entries.update(i, StakeEntry { key: entries[i].key, amount }))
            == entries_map(entries).insert(entries[i].key, amount as nat),
    decreases entries.len(),
{
    let key = entries[i].key;
    let changed = entries.update(i, StakeEntry { key, amount });
    let front = entries.drop_last();
    if i == entries.len() - 1 {
        assert(changed.drop_last() == front);
        assert(entries_map(changed) == entries_map(entries).insert(key, amount as nat));
    } else {
        assert(distinct_keys(front)) by {
            assert forall|a: int, b: int| 0 <= a < b < front.len() implies (#[trigger] front[a]).key
                != (#[trigger] front[b]).key by {
                assert(entries[a].key != entries[b].key);
            }
        }
        lemma_entries_map_update(front, i, amount);
        assert(front[i] == entries[i]);
        assert(changed.drop_last() == front.update(i, StakeEntry { key, amount }));
        assert(changed.last() == entries.last());
        assert(entries[i].key != entries[entries.len() - 1].key);
        assert(entries_map(changed) == entries_map(entries).insert(key, amount as nat));
    }
}

/// An append-only table of stakes.
#[derive(Debug, PartialEq, Eq)]
pub struct StakeLedger {
    entries: Vec<StakeEntry>,
}

impl Clone for StakeLedger {
    fn clone(&self) -> (copy: StakeLedger)
        ensures
            copy@ == self@,
    {
        proof {
            use_type_invariant(self);
        }
        StakeLedger { entries: self.entries.clone() }
    }
}

impl View for StakeLedger {
    type V = Map<StakeKey, nat>;

    closed spec fn view(&self) -> Map<StakeKey, nat> {
        entries_map(self.entries@)
    }
}

impl StakeLedger {
    /// The ledger keeps at most one line per key.
    #[verifier::type_invariant]
    spec fn one_line_per_key(&self) -> bool {
        distinct_keys(self.entries@)
    }

    /// A ledger without entries.
    pub fn new() -> (ledger: StakeLedger)
        ensures
            ledger@ == Map::<StakeKey, nat>::empty(),
    {
        StakeLedger { entries: Vec::new() }
    }

    /// The ledger that holds the given lines; none where two of them share a
    /// key.
    pub fn from_entries(entries: Vec<StakeEntry>) -> (ledger: Option<StakeLedger>)
        ensures
            match ledger {
                Some(l) => distinct_keys(entries@) && l@ == entries_map(entries@),
                None => !distinct_keys(entries@),
            },
    {
        let mut i: usize = 0;
        while i < entries.len()
            invariant
                i <= entries.len(),
                forall|a: int, b: int|
                    0 <= a < b < i ==> (#[trigger] entries[a]).key != (#[trigger] entries[b]).key,
            decreases entries.len() - i,
        {
            let mut j: usize = 0;
            while j < i
                invariant
                    j <= i < entries.len(),
                    forall|a: int| 0 <= a < j ==> (#[trigger] entries[a]).key != entries[i as int].key,
                decreases i - j,
            {
                if entries[j].key == entries[i].key {
                    return None;
                }
                j += 1;
            }
            i += 1;
        }
        Some(StakeLedger { entries })
    }

    /// The lines of the ledger: one for each key under which something was
    /// recorded.
    pub fn entries(&self) -> (entries: Vec<StakeEntry>)
        ensures
            distinct_keys(entries@),
            entries_map(entries@) == self@,
    {
        proof {
            use_type_invariant(self);
        }
        self.entries.clone()
    }

    /// Where the line of the key stands, if the ledger has one.
    fn line_of(&self, key: &StakeKey) -> (line: Option<usize>)
        ensures
            match line {
                Some(i) => i < self.entries.len() && self.entries[i as int].key == *key,
                None => !self@.dom().contains(*key),
            },
    {
        let mut i: usize = 0;
        while i < self.entries.len()
            invariant
                i <= self.entries.len(),
                forall|j: int| 0 <= j < i ==> (#[trigger] self.entries[j]).key != *key,
            decreases self.entries.len() - i,
        {
            if self.entries[i].key == *key {
                return Some(i);
            }
            i += 1;
        }
        proof {
            lemma_entries_map_dom(self.entries@, *key);
        }
        None
    }

    /// The value accumulated under the key, zero where nothing was recorded.
    pub fn read_stake(&self, proposal_id: u32, voter: AccountId, in_favor: bool, asset_id: u32) -> (amount:
        Balance)
        ensures
            amount == stake_of(self@, StakeKey { proposal_id, voter, in_favor, asset_id }),
    {
        let key = StakeKey { proposal_id, voter, in_favor, asset_id };
        match self.line_of(&key) {
            Some(i) => {
                proof {
                    use_type_invariant(self);
                    lemma_entries_map_at(self.entries@, i as int);
                }
                self.entries[i].amount
            },
            None => 0,
        }
    }

    /// Adds `amount` to the value accumulated under the key, starting from
    /// zero where nothing was recorded, and returns the new total. No other
    /// entry changes.
    pub fn record_stake(
        &mut self,
        proposal_id: u32,
        voter: AccountId,
        in_favor: bool,
        asset_id: u32,
        amount: Balance,
    ) -> (total: Balance)
        requires
            stake_of(old(self)@, StakeKey { proposal_id, voter, in_favor, asset_id }) + amount
                <= Balance::MAX,
        ensures
            total == stake_of(old(self)@, StakeKey { proposal_id, voter, in_favor, asset_id })
                + amount,
            final(self)@ == old(self)@.insert(
                StakeKey { proposal_id, voter, in_favor, asset_id },
                total as nat,
            ),
    {
        proof {
            use_type_invariant(&*self);
        }
        let key = StakeKey { proposal_id, voter, in_favor, asset_id };
        let line = self.line_of(&key);
        let mut entries: Vec<StakeEntry> = Vec::new();
        std::mem::swap(&mut entries, &mut self.entries);
        let total = match line {
            Some(i) => {
                proof {
                    lemma_entries_map_at(entries@, i as int);
                }
                let total: Balance = entries[i].amount + amount;
                proof {
                    lemma_entries_map_update(entries@, i as int, total);
                }
                entries.set(i, StakeEntry { key, amount: total });
                total
            },
            None => {
                proof {
                    lemma_entries_map_dom(entries@, key);
                    assert(entries@.push(StakeEntry { key, amount }).drop_last() == entries@);
                }
                entries.push(StakeEntry { key, amount });
                amount
            },
        };
        self.entries = entries;
        total
    }
}

} // verus!
