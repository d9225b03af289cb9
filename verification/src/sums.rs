//! Sums of stakes over sets of keys, and the tally as such a sum.

use vstd::prelude::*;
use crate::account::AccountId;
use crate::ledger::{stake_of, StakeKey};
use crate::tally::{side_total, voters_total};

verus! {

/// The sum of the stakes held under the keys of a finite set.
pub open spec fn staked(stakes: Map<StakeKey, nat>, keys: Set<StakeKey>) -> nat
    decreases keys.len(),
    when keys.finite()
{
    if keys.len() == 0 {
        0
    } else {
        stake_of(stakes, keys.choose()) + staked(stakes, keys.remove(keys.choose()))
    }
}

/// The keys of one side of a proposal under which the ledger holds a stake.
pub open spec fn side_keys(stakes: Map<StakeKey, nat>, proposal_id: u32, in_favor: bool) -> Set<StakeKey> {
    stakes.dom().filter(|key: StakeKey| key.proposal_id == proposal_id && key.in_favor == in_favor)
}

/// The keys of the listed voters on one side of a proposal in one asset.
pub open spec fn voter_keys(proposal_id: u32, in_favor: bool, asset_id: u32, voters: Seq<AccountId>) -> Set<
    StakeKey,
> {
    Set::new(
        |key: StakeKey|
            key.proposal_id == proposal_id && key.in_favor == in_favor && key.asset_id == asset_id
                && voters.contains(key.voter),
    )
}

/// The keys of the listed voters on one side of a proposal in the listed
/// assets.
pub open spec fn grid_keys(proposal_id: u32, in_favor: bool, assets: Seq<u32>, voters: Seq<AccountId>) -> Set<
    StakeKey,
> {
    Set::new(
        |key: StakeKey|
            key.proposal_id == proposal_id && key.in_favor == in_favor && assets.contains(
                key.asset_id,
            ) && voters.contains(key.voter),
    )
}

/// Any key of the set may be taken out of the sum first.
pub proof fn lemma_staked_remove(stakes: Map<StakeKey, nat>, keys: Set<StakeKey>, key: StakeKey)
    requires
        keys.finite(),
        keys.contains(key),
    ensures
        staked(stakes, keys) == stake_of(stakes, key) + staked(stakes, keys.remove(key)),
    decreases keys.len(),
{
    let chosen = keys.choose();
    if chosen != key {
        lemma_staked_remove(stakes, keys.remove(chosen), key);
        lemma_staked_remove(stakes, keys.remove(key), chosen);
        assert(keys.remove(chosen).remove(key) =~= keys.remove(key).remove(chosen));
    }
}

/// One more key adds its stake to the sum.
pub proof fn lemma_staked_insert(stakes: Map<StakeKey, nat>, keys: Set<StakeKey>, key: StakeKey)
    requires
        keys.finite(),
        !keys.contains(key),
    ensures
        staked(stakes, keys.insert(key)) == staked(stakes, keys) + stake_of(stakes, key),
{
    lemma_staked_remove(stakes, keys.insert(key), key);
    assert(keys.insert(key).remove(key) =~= keys);
}

/// The sum over two sets that share no key is the sum of their sums.
pub proof fn lemma_staked_union(stakes: Map<StakeKey, nat>, a: Set<StakeKey>, b: Set<StakeKey>)
    requires
        a.finite(),
        b.finite(),
        a.disjoint(b),
    ensures
        staked(stakes, a.union(b)) == staked(stakes, a) + staked(stakes, b),
    decreases b.len(),
{
    if b.len() == 0 {
        assert(b =~= Set::empty());
        assert(a.union(b) =~= a);
    } else {
        let key = b.choose();
        let rest = b.remove(key);
        lemma_staked_union(stakes, a, rest);
        assert(a.union(b) =~= a.union(rest).insert(key));
        lemma_staked_insert(stakes, a.union(rest), key);
    }
}

/// Keys that hold nothing add nothing.
pub proof fn lemma_staked_nothing(stakes: Map<StakeKey, nat>, keys: Set<StakeKey>)
    requires
        keys.finite(),
        forall|key: StakeKey| keys.contains(key) ==> stake_of(stakes, key) == 0,
    ensures
        staked(stakes, keys) == 0,
    decreases keys.len(),
{
    if keys.len() > 0 {
        lemma_staked_nothing(stakes, keys.remove(keys.choose()));
    }
}

/// Only the keys under which the ledger holds a stake count.
pub proof fn lemma_staked_in_ledger(stakes: Map<StakeKey, nat>, keys: Set<StakeKey>)
    requires
        keys.finite(),
    ensures
        staked(stakes, keys) == staked(stakes, keys.intersect(stakes.dom())),
{
    let held = keys.intersect(stakes.dom());
    let empty = keys.difference(stakes.dom());
    assert(keys =~= held.union(empty));
    lemma_staked_union(stakes, held, empty);
    lemma_staked_nothing(stakes, empty);
}

/// The total of a list of voters in one asset is the sum over their keys.
pub proof fn lemma_voters_total_is_staked(
    stakes: Map<StakeKey, nat>,
    proposal_id: u32,
    in_favor: bool,
    asset_id: u32,
    voters: Seq<AccountId>,
)
    requires
        voters.no_duplicates(),
    ensures
        voter_keys(proposal_id, in_favor, asset_id, voters).finite(),
        voters_total(stakes, proposal_id, in_favor, asset_id, voters) == staked(
            stakes,
            voter_keys(proposal_id, in_favor, asset_id, voters),
        ),
    decreases voters.len(),
{
    let keys = voter_keys(proposal_id, in_favor, asset_id, voters);
    if voters.len() == 0 {
        assert(keys =~= Set::empty());
    } else {
        let front = voters.drop_last();
        let last = voters.last();
        let key = StakeKey { proposal_id, voter: last, in_favor, asset_id };
        let earlier = voter_keys(proposal_id, in_favor, asset_id, front);
        lemma_voters_total_is_staked(stakes, proposal_id, in_favor, asset_id, front);
        assert forall|k: StakeKey| keys.contains(k) <==> earlier.insert(key).contains(k) by {
            if voters.contains(k.voter) {
                let i = choose|i: int| 0 <= i < voters.len() && voters[i] == k.voter;
                if i < front.len() {
                    assert(front[i] == k.voter);
                }
            }
            if front.contains(k.voter) {
                let i = choose|i: int| 0 <= i < front.len() && front[i] == k.voter;
                assert(voters[i] == k.voter);
            }
            assert(voters[voters.len() - 1] == last);
        }
        assert(keys =~= earlier.insert(key));
        assert(!earlier.contains(key)) by {
            if front.contains(last) {
                let i = choose|i: int| 0 <= i < front.len() && front[i] == last;
                assert(voters[i] == voters[voters.len() - 1]);
            }
        }
        lemma_staked_insert(stakes, earlier, key);
    }
}

/// The total of a side is the sum over the keys of its voters in the listed
/// assets.
pub proof fn lemma_side_total_is_staked(
    stakes: Map<StakeKey, nat>,
    proposal_id: u32,
    in_favor: bool,
    assets: Seq<u32>,
    voters: Seq<AccountId>,
)
    requires
        assets.no_duplicates(),
        voters.no_duplicates(),
    ensures
        grid_keys(proposal_id, in_favor, assets, voters).finite(),
        side_total(stakes, proposal_id, in_favor, assets, voters) == staked(
            stakes,
            grid_keys(proposal_id, in_favor, assets, voters),
        ),
    decreases assets.len(),
{
    let keys = grid_keys(proposal_id, in_favor, assets, voters);
    if assets.len() == 0 {
        assert(keys =~= Set::empty());
    } else {
        let front = assets.drop_last();
        let last = assets.last();
        let earlier = grid_keys(proposal_id, in_favor, front, voters);
        let column = voter_keys(proposal_id, in_favor, last, voters);
        lemma_side_total_is_staked(stakes, proposal_id, in_favor, front, voters);
        lemma_voters_total_is_staked(stakes, proposal_id, in_favor, last, voters);
        assert forall|k: StakeKey| keys.contains(k) <==> earlier.union(column).contains(k) by {
            if assets.contains(k.asset_id) {
                let i = choose|i: int| 0 <= i < assets.len() && assets[i] == k.asset_id;
                if i < front.len() {
                    assert(front[i] == k.asset_id);
                }
            }
            if front.contains(k.asset_id) {
                let i = choose|i: int| 0 <= i < front.len() && front[i] == k.asset_id;
                assert(assets[i] == k.asset_id);
            }
            assert(assets[assets.len() - 1] == last);
        }
        assert(keys =~= earlier.union(column));
        assert(earlier.disjoint(column)) by {
            assert forall|k: StakeKey| !(earlier.contains(k) && column.contains(k)) by {
                if front.contains(last) {
                    let i = choose|i: int| 0 <= i < front.len() && front[i] == last;
                    assert(assets[i] == assets[assets.len() - 1]);
                }
            }
        }
        lemma_staked_union(stakes, earlier, column);
    }
}

} // verus!
