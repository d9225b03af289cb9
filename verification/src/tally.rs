//! The tally: what is staked on each side of a proposal, and what the two
//! totals decide.

use vstd::prelude::*;
use crate::account::AccountId;
use crate::ledger::{stake_of, StakeKey};
use crate::proposal::Outcome;

verus! {

/// The value that the listed voters have staked on one side of a proposal in
/// one asset.
pub open spec fn voters_total(
    stakes: Map<StakeKey, nat>,
    proposal_id: u32,
    in_favor: bool,
    asset_id: u32,
    voters: Seq<AccountId>,
) -> nat
    decreases voters.len(),
{
    if voters.len() == 0 {
        0
    } else {
        voters_total(stakes, proposal_id, in_favor, asset_id, voters.drop_last()) + stake_of(
            stakes,
            StakeKey { proposal_id, voter: voters.last(), in_favor, asset_id },
        )
    }
}

/// The value that the listed voters have staked on one side of a proposal,
/// over all the listed assets.
pub open spec fn side_total(
    stakes: Map<StakeKey, nat>,
    proposal_id: u32,
    in_favor: bool,
    assets: Seq<u32>,
    voters: Seq<AccountId>,
) -> nat
    decreases assets.len(),
{
    if assets.len() == 0 {
        0
    } else {
        side_total(stakes, proposal_id, in_favor, assets.drop_last(), voters) + voters_total(
            stakes,
            proposal_id,
            in_favor,
            assets.last(),
            voters,
        )
    }
}

/// The decision rule: the side with strictly more stake wins; equal stakes
/// decide nothing.
pub open spec fn decide(total_for: nat, total_against: nat) -> Outcome {
    if total_for > total_against {
        Outcome::InFavor
    } else if total_against > total_for {
        Outcome::Against
    } else {
        Outcome::Indecision
    }
}

} // verus!
