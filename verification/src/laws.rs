//! What holds of the engine whatever is asked of it.

use vstd::prelude::*;
use crate::account::AccountId;
use crate::ledger::{stake_of, StakeKey};
use crate::model::{
    lemma_cancelled_wf, lemma_closed_wf, lemma_submitted_wf, lemma_voted_wf, Action, EngineState,
};
use crate::sums::{
    grid_keys, lemma_side_total_is_staked, lemma_staked_in_ledger, side_keys, staked,
};
use crate::proposal::{lemma_joined_no_duplicates, Outcome};

verus! {

/// Every action leaves a well-formed state well formed: no voter is listed
/// twice on a side, no side lists more voters than it counts votes, an
/// open proposal is unresolved, only a proposal resolved in favour carries a
/// referendum reference, the supported assets are a set, and every stake
/// belongs to an existing proposal, a supported asset and a listed voter.
pub proof fn law_well_formed_preserved(s: EngineState, action: Action)
    requires
        s.wf(),
    ensures
        s.apply(action).wf(),
{
    if s.refusal(action) is None {
        match action {
            Action::Submit { title, description, caller, now, .. } => {
                lemma_submitted_wf(s, title, description, caller, now);
            },
            Action::Vote { proposal_id, asset_id, deposit, caller, in_favor, .. } => {
                lemma_voted_wf(s, proposal_id, asset_id, deposit, caller, in_favor);
            },
            Action::Close { proposal_id, referendum, .. } => {
                lemma_closed_wf(s, proposal_id, referendum);
            },
            Action::Cancel { proposal_id, .. } => {
                lemma_cancelled_wf(s, proposal_id);
            },
        }
    }
}

/// A refused action changes nothing: no proposal, no count, no voter list, no
/// stake.
pub proof fn law_refused_changes_nothing(s: EngineState, action: Action)
    requires
        s.refusal(action) is Some,
    ensures
        s.apply(action) == s,
{
}

/// Once a proposal is closed, no action changes its record (its result, its
/// voters, its counts, its referendum reference) or any stake recorded for
/// it.
pub proof fn law_closed_is_final(s: EngineState, action: Action, proposal_id: u32)
    requires
        s.has(proposal_id),
        s.proposals[proposal_id as int].closed,
    ensures
        s.apply(action).has(proposal_id),
        s.apply(action).proposals[proposal_id as int] == s.proposals[proposal_id as int],
        forall|key: StakeKey|
            key.proposal_id == proposal_id ==> (#[trigger] s.apply(action).stakes.dom().contains(key))
                == s.stakes.dom().contains(key),
        forall|key: StakeKey|
            key.proposal_id == proposal_id ==> #[trigger] stake_of(s.apply(action).stakes, key)
                == stake_of(s.stakes, key),
{
}

/// Proposals persist: every action keeps each proposal under its identifier,
/// with its title, description, creator and deadline; a closed proposal stays
/// closed; votes are never uncounted and voters never unlisted. Only an
/// accepted submission adds a proposal, and it adds exactly one, under the
/// next identifier.
pub proof fn law_proposals_persist(s: EngineState, action: Action, proposal_id: u32)
    requires
        s.has(proposal_id),
    ensures
        s.apply(action).has(proposal_id),
        s.apply(action).proposals.len() == s.proposals.len() + (if action is Submit && s.refusal(
            action,
        ) is None {
            1nat
        } else {
            0nat
        }),
        ({
            let before = s.proposals[proposal_id as int];
            let after = s.apply(action).proposals[proposal_id as int];
            &&& after.title == before.title
            &&& after.description == before.description
            &&& after.creator == before.creator
            &&& after.deadline == before.deadline
            &&& before.closed ==> after.closed
            &&& after.supporter_count >= before.supporter_count
            &&& after.supporter_count_against >= before.supporter_count_against
            &&& forall|voter: AccountId|
                before.for_voters.contains(voter) ==> after.for_voters.contains(voter)
            &&& forall|voter: AccountId|
                before.against_voters.contains(voter) ==> after.against_voters.contains(voter)
        }),
{
    let before = s.proposals[proposal_id as int];
    let after = s.apply(action).proposals[proposal_id as int];
    assert forall|voter: AccountId| before.for_voters.contains(voter) implies after.for_voters.contains(
        voter,
    ) by {
        let i = choose|i: int| 0 <= i < before.for_voters.len() && before.for_voters[i] == voter;
        if after.for_voters != before.for_voters {
            assert(after.for_voters[i] == voter);
        }
    }
    assert forall|voter: AccountId|
        before.against_voters.contains(voter) implies after.against_voters.contains(voter) by {
        let i = choose|i: int|
            0 <= i < before.against_voters.len() && before.against_voters[i] == voter;
        if after.against_voters != before.against_voters {
            assert(after.against_voters[i] == voter);
        }
    }
}

/// Stakes only grow: no action removes a stake entry or lowers its amount,
/// and only an accepted vote changes one, namely the voter's own on the side
/// and in the asset of the vote, which it raises by the deposit.
pub proof fn law_stakes_only_grow(s: EngineState, action: Action, key: StakeKey)
    ensures
        s.stakes.dom().contains(key) ==> s.apply(action).stakes.dom().contains(key),
        stake_of(s.apply(action).stakes, key) >= stake_of(s.stakes, key),
        stake_of(s.apply(action).stakes, key) == stake_of(s.stakes, key) + (match action {
            Action::Vote { proposal_id, asset_id, deposit, caller, in_favor, .. } => if s.refusal(
                action,
            ) is None && key == (StakeKey { proposal_id, voter: caller, in_favor, asset_id }) {
                deposit
            } else {
                0nat
            },
            _ => 0nat,
        }),
{
}

/// Every accepted vote is counted, and every voter is listed once: an
/// accepted vote raises its side's count by exactly one, leaves the other
/// side alone, and lengthens its side's list of voters by the caller where
/// the caller was not on it, and not at all where the caller was.
pub proof fn law_vote_counted_voter_listed_once(
    s: EngineState,
    proposal_id: u32,
    asset_id: u32,
    deposit: nat,
    caller: AccountId,
    now: nat,
    in_favor: bool,
)
    requires
        s.wf(),
        s.vote_refusal(proposal_id, asset_id, deposit, now) is None,
    ensures
        ({
            let before = s.proposals[proposal_id as int];
            let after = s.voted(proposal_id, asset_id, deposit, caller, in_favor).proposals[proposal_id as int];
            &&& after.votes(in_favor) == before.votes(in_favor) + 1
            &&& after.votes(!in_favor) == before.votes(!in_favor)
            &&& after.voters(!in_favor) == before.voters(!in_favor)
            &&& after.voters(in_favor).contains(caller)
            &&& after.voters(in_favor).no_duplicates()
            &&& before.voters(in_favor).contains(caller) ==> after.voters(in_favor) == before.voters(
                in_favor,
            )
            &&& !before.voters(in_favor).contains(caller) ==> after.voters(in_favor)
                == before.voters(in_favor).push(caller)
        }),
{
    let before = s.proposals[proposal_id as int];
    lemma_joined_no_duplicates(before.voters(in_favor), caller);
}

/// Two accepted votes of one account on one side of a proposal count as two
/// votes and list the account once: the side's count grows by two, its list
/// of voters by at most one, and the second vote leaves the list as the first
/// left it. The assets and deposits of the two votes may differ.
pub proof fn law_repeated_vote(
    s: EngineState,
    proposal_id: u32,
    caller: AccountId,
    in_favor: bool,
    first_asset: u32,
    first_deposit: nat,
    first_now: nat,
    second_asset: u32,
    second_deposit: nat,
    second_now: nat,
)
    requires
        s.wf(),
        s.vote_refusal(proposal_id, first_asset, first_deposit, first_now) is None,
        s.vote_refusal(proposal_id, second_asset, second_deposit, second_now) is None,
    ensures
        ({
            let once = s.voted(proposal_id, first_asset, first_deposit, caller, in_favor);
            let twice = once.voted(proposal_id, second_asset, second_deposit, caller, in_favor);
            let before = s.proposals[proposal_id as int];
            let after = twice.proposals[proposal_id as int];
            &&& once.vote_refusal(proposal_id, second_asset, second_deposit, second_now) is None
            &&& after.votes(in_favor) == before.votes(in_favor) + 2
            &&& after.voters(in_favor) == once.proposals[proposal_id as int].voters(in_favor)
            &&& after.voters(in_favor).len() <= before.voters(in_favor).len() + 1
            &&& after.voters(in_favor).no_duplicates()
            &&& first_asset == second_asset ==> twice.stake(
                proposal_id,
                caller,
                in_favor,
                first_asset,
            ) == s.stake(proposal_id, caller, in_favor, first_asset) + first_deposit
                + second_deposit
        }),
{
    let before = s.proposals[proposal_id as int];
    lemma_joined_no_duplicates(before.voters(in_favor), caller);
}

/// The decision rule: a proposal closes in favour, with the reference that
/// the referendum subsystem gave, where strictly more is staked for it than
/// against it; against, without a reference, where strictly less is; and in
/// indecision, without a reference, where the two totals are equal.
pub proof fn law_decision_rule(
    s: EngineState,
    proposal_id: u32,
    caller: AccountId,
    referendum: Option<u32>,
)
    requires
        s.close_refusal(proposal_id, caller, referendum) is None,
    ensures
        ({
            let total_for = s.total(proposal_id, true);
            let total_against = s.total(proposal_id, false);
            let closed = s.closed(proposal_id, referendum).proposals[proposal_id as int];
            &&& closed.closed
            &&& total_for > total_against ==> closed.result == Outcome::InFavor
                && closed.referendum_index == referendum && referendum is Some
            &&& total_for < total_against ==> closed.result == Outcome::Against
                && closed.referendum_index is None
            &&& total_for == total_against ==> closed.result == Outcome::Indecision
                && closed.referendum_index is None
        }),
{
}

/// The tally counts every stake once: the total of a side of a proposal is
/// the sum of all the stakes that the ledger holds for that side of that
/// proposal, whoever made them and in whatever asset.
pub proof fn law_total_is_the_sum_of_the_stakes(s: EngineState, proposal_id: u32, in_favor: bool)
    requires
        s.wf(),
        s.has(proposal_id),
    ensures
        side_keys(s.stakes, proposal_id, in_favor).finite(),
        s.total(proposal_id, in_favor) == staked(
            s.stakes,
            side_keys(s.stakes, proposal_id, in_favor),
        ),
{
    let proposal = s.proposals[proposal_id as int];
    let voters = proposal.voters(in_favor);
    let grid = grid_keys(proposal_id, in_favor, s.supported_assets, voters);
    lemma_side_total_is_staked(s.stakes, proposal_id, in_favor, s.supported_assets, voters);
    lemma_staked_in_ledger(s.stakes, grid);
    assert(grid.intersect(s.stakes.dom()) =~= side_keys(s.stakes, proposal_id, in_favor));
}

/// The resolution is decided by the stakes alone: two well-formed states with
/// the same stake ledger hold the same totals for a proposal and decide it
/// alike, whatever else differs between them.
pub proof fn law_resolution_decided_by_stakes(s: EngineState, t: EngineState, proposal_id: u32)
    requires
        s.wf(),
        t.wf(),
        s.has(proposal_id),
        t.has(proposal_id),
        s.stakes == t.stakes,
    ensures
        s.total(proposal_id, true) == t.total(proposal_id, true),
        s.total(proposal_id, false) == t.total(proposal_id, false),
        s.decision(proposal_id) == t.decision(proposal_id),
{
    law_total_is_the_sum_of_the_stakes(s, proposal_id, true);
    law_total_is_the_sum_of_the_stakes(s, proposal_id, false);
    law_total_is_the_sum_of_the_stakes(t, proposal_id, true);
    law_total_is_the_sum_of_the_stakes(t, proposal_id, false);
}

/// The state after a series of actions, taken one after the other.
pub open spec fn run(s: EngineState, actions: Seq<Action>) -> EngineState
    decreases actions.len(),
{
    if actions.len() == 0 {
        s
    } else {
        run(s, actions.drop_last()).apply(actions.last())
    }
}

/// A series of actions leaves a well-formed state well formed.
pub proof fn law_run_well_formed(s: EngineState, actions: Seq<Action>)
    requires
        s.wf(),
    ensures
        run(s, actions).wf(),
    decreases actions.len(),
{
    if actions.len() > 0 {
        law_run_well_formed(s, actions.drop_last());
        law_well_formed_preserved(run(s, actions.drop_last()), actions.last());
    }
}

/// A new engine is well formed, and stays so whatever is asked of it.
pub proof fn law_reachable_states_well_formed(
    min_deposit: nat,
    voting_period: nat,
    owner: AccountId,
    supported_assets: Seq<u32>,
    actions: Seq<Action>,
)
    requires
        supported_assets.no_duplicates(),
    ensures
        EngineState::initial(min_deposit, voting_period, owner, supported_assets).wf(),
        run(
            EngineState::initial(min_deposit, voting_period, owner, supported_assets),
            actions,
        ).wf(),
{
    law_run_well_formed(
        EngineState::initial(min_deposit, voting_period, owner, supported_assets),
        actions,
    );
}

/// A closed proposal is closed for good: no series of actions changes its
/// record or any stake recorded for it.
pub proof fn law_closed_for_good(s: EngineState, actions: Seq<Action>, proposal_id: u32)
    requires
        s.has(proposal_id),
        s.proposals[proposal_id as int].closed,
    ensures
        run(s, actions).has(proposal_id),
        run(s, actions).proposals[proposal_id as int] == s.proposals[proposal_id as int],
        forall|key: StakeKey|
            key.proposal_id == proposal_id ==> (#[trigger] run(s, actions).stakes.dom().contains(key))
                == s.stakes.dom().contains(key),
        forall|key: StakeKey|
            key.proposal_id == proposal_id ==> #[trigger] stake_of(run(s, actions).stakes, key)
                == stake_of(s.stakes, key),
    decreases actions.len(),
{
    if actions.len() > 0 {
        let earlier = run(s, actions.drop_last());
        law_closed_for_good(s, actions.drop_last(), proposal_id);
        law_closed_is_final(earlier, actions.last(), proposal_id);
        assert forall|key: StakeKey| key.proposal_id == proposal_id implies (
        #[trigger] run(s, actions).stakes.dom().contains(key)) == s.stakes.dom().contains(key) by {
            assert(earlier.stakes.dom().contains(key) == s.stakes.dom().contains(key));
        }
        assert forall|key: StakeKey| key.proposal_id == proposal_id implies #[trigger] stake_of(
            run(s, actions).stakes,
            key,
        ) == stake_of(s.stakes, key) by {
            assert(stake_of(earlier.stakes, key) == stake_of(s.stakes, key));
        }
    }
}

} // verus!
