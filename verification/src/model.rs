//! The engine as mathematics: its state, when each operation is refused, and
//! what an accepted operation does.

use vstd::prelude::*;
use crate::account::AccountId;
use crate::error::Error;
use crate::ledger::{stake_of, StakeKey};
use crate::proposal::{lemma_joined_no_duplicates, Outcome, ProposalState};
use crate::tally::{decide, side_total};

verus! {

/// The whole state of the engine.
#[verifier::ext_equal]
pub struct EngineState {
    /// The proposals, each at the index that is its identifier.
    pub proposals: Seq<ProposalState>,
    /// The stake ledger.
    pub stakes: Map<StakeKey, nat>,
    /// The least value that a submission or a vote must carry.
    pub min_deposit: nat,
    /// How long after its submission a proposal accepts votes.
    pub voting_period: nat,
    /// The account that may close or cancel any proposal.
    pub owner: AccountId,
    /// The assets in which votes are accepted, each listed once.
    pub supported_assets: Seq<u32>,
}

/// One call of the engine, with everything that the call brings along.
pub enum Action {
    Submit { title: Seq<char>, description: Seq<char>, deposit: nat, caller: AccountId, now: nat },
    Vote { proposal_id: u32, asset_id: u32, deposit: nat, caller: AccountId, now: nat, in_favor: bool },
    Close { proposal_id: u32, caller: AccountId, referendum: Option<u32> },
    Cancel { proposal_id: u32, caller: AccountId },
}

impl EngineState {
    /// The engine right after construction: no proposals, no stakes.
    pub open spec fn initial(
        min_deposit: nat,
        voting_period: nat,
        owner: AccountId,
        supported_assets: Seq<u32>,
    ) -> EngineState {
        EngineState {
            proposals: Seq::empty(),
            stakes: Map::empty(),
            min_deposit,
            voting_period,
            owner,
            supported_assets,
        }
    }

    /// Whether a proposal has the identifier.
    pub open spec fn has(self, proposal_id: u32) -> bool {
        proposal_id < self.proposals.len()
    }

    /// The stake recorded for a voter on one side of a proposal in one asset.
    pub open spec fn stake(self, proposal_id: u32, voter: AccountId, in_favor: bool, asset_id: u32) -> nat {
        stake_of(self.stakes, StakeKey { proposal_id, voter, in_favor, asset_id })
    }

    /// The total staked on one side of a proposal: over every supported asset
    /// and every voter recorded on that side.
    pub open spec fn total(self, proposal_id: u32, in_favor: bool) -> nat {
        side_total(
            self.stakes,
            proposal_id,
            in_favor,
            self.supported_assets,
            self.proposals[proposal_id as int].voters(in_favor),
        )
    }

    /// What the stakes recorded for a proposal decide.
    pub open spec fn decision(self, proposal_id: u32) -> Outcome {
        decide(self.total(proposal_id, true), self.total(proposal_id, false))
    }

    /// The access guard: only a proposal's creator and the owner may close or
    /// cancel it.
    pub open spec fn may_finalize(self, proposal_id: u32, caller: AccountId) -> bool {
        caller == self.proposals[proposal_id as int].creator || caller == self.owner
    }

    /// Why a submission carrying `deposit` is refused, if it is.
    pub open spec fn submit_refusal(self, deposit: nat) -> Option<Error> {
        if deposit < self.min_deposit {
            Some(Error::InsufficientDeposit)
        } else {
            None
        }
    }

    /// The state after an accepted submission at time `now`: the new proposal
    /// has the next identifier and its deadline is `now` plus the voting
    /// period.
    pub open spec fn submitted(
        self,
        title: Seq<char>,
        description: Seq<char>,
        caller: AccountId,
        now: nat,
    ) -> EngineState {
        EngineState {
            proposals: self.proposals.push(
                ProposalState::fresh(title, description, caller, now + self.voting_period),
            ),
            ..self
        }
    }

    /// Why a vote is refused, if it is. The checks are made in this order:
    /// the asset, the proposal's existence, its being open, the deadline, the
    /// deposit.
    pub open spec fn vote_refusal(self, proposal_id: u32, asset_id: u32, deposit: nat, now: nat) -> Option<
        Error,
    > {
        if !self.supported_assets.contains(asset_id) {
            Some(Error::InvalidAsset)
        } else if !self.has(proposal_id) {
            Some(Error::ProposalNotFound)
        } else if self.proposals[proposal_id as int].closed {
            Some(Error::ProposalClosed)
        } else if now > self.proposals[proposal_id as int].deadline {
            Some(Error::VotingPeriodEnded)
        } else if deposit < self.min_deposit {
            Some(Error::InsufficientDeposit)
        } else {
            None
        }
    }

    /// The state after an accepted vote: the proposal counts the vote and
    /// lists the voter, and the ledger adds the deposit to the voter's stake
    /// on that side in that asset.
    pub open spec fn voted(
        self,
        proposal_id: u32,
        asset_id: u32,
        deposit: nat,
        caller: AccountId,
        in_favor: bool,
    ) -> EngineState {
        EngineState {
            proposals: self.proposals.update(
                proposal_id as int,
                self.proposals[proposal_id as int].with_vote(caller, in_favor),
            ),
            stakes: self.stakes.insert(
                StakeKey { proposal_id, voter: caller, in_favor, asset_id },
                self.stake(proposal_id, caller, in_favor, asset_id) + deposit,
            ),
            ..self
        }
    }

    /// Why closing or cancelling is refused before any stake is looked at, if
    /// it is.
    pub open spec fn finalize_refusal(self, proposal_id: u32, caller: AccountId) -> Option<Error> {
        if !self.has(proposal_id) {
            Some(Error::ProposalNotFound)
        } else if self.proposals[proposal_id as int].closed {
            Some(Error::AlreadyClosed)
        } else if !self.may_finalize(proposal_id, caller) {
            Some(Error::NotCreator)
        } else {
            None
        }
    }

    /// Why closing is refused, if it is. `referendum` is what the referendum
    /// subsystem answered: a reference, or nothing where it failed or was not
    /// asked. A decision in favour needs a reference.
    pub open spec fn close_refusal(self, proposal_id: u32, caller: AccountId, referendum: Option<u32>) -> Option<
        Error,
    > {
        if self.finalize_refusal(proposal_id, caller) is Some {
            self.finalize_refusal(proposal_id, caller)
        } else if self.decision(proposal_id) == Outcome::InFavor && referendum is None {
            Some(Error::ReferendumSubmissionFailed)
        } else {
            None
        }
    }

    /// The reference recorded when a proposal is closed: the subsystem's
    /// answer for a decision in favour, none otherwise.
    pub open spec fn recorded_reference(self, proposal_id: u32, referendum: Option<u32>) -> Option<u32> {
        if self.decision(proposal_id) == Outcome::InFavor {
            referendum
        } else {
            None
        }
    }

    /// The state after an accepted close: the proposal is closed with the
    /// decision of its stakes.
    pub open spec fn closed(self, proposal_id: u32, referendum: Option<u32>) -> EngineState {
        EngineState {
            proposals: self.proposals.update(
                proposal_id as int,
                self.proposals[proposal_id as int].resolved(
                    self.decision(proposal_id),
                    self.recorded_reference(proposal_id, referendum),
                ),
            ),
            ..self
        }
    }

    /// The state after an accepted cancellation: the proposal is closed
    /// without a decision.
    pub open spec fn cancelled(self, proposal_id: u32) -> EngineState {
        EngineState {
            proposals: self.proposals.update(
                proposal_id as int,
                self.proposals[proposal_id as int].cancelled(),
            ),
            ..self
        }
    }

    /// Why the action is refused, if it is.
    pub open spec fn refusal(self, action: Action) -> Option<Error> {
        match action {
            Action::Submit { deposit, .. } => self.submit_refusal(deposit),
            Action::Vote { proposal_id, asset_id, deposit, now, .. } => self.vote_refusal(
                proposal_id,
                asset_id,
                deposit,
                now,
            ),
            Action::Close { proposal_id, caller, referendum } => self.close_refusal(
                proposal_id,
                caller,
                referendum,
            ),
            Action::Cancel { proposal_id, caller } => self.finalize_refusal(proposal_id, caller),
        }
    }

    /// The state after the action: unchanged where the action is refused.
    pub open spec fn apply(self, action: Action) -> EngineState {
        if self.refusal(action) is Some {
            self
        } else {
            match action {
                Action::Submit { title, description, caller, now, .. } => self.submitted(
                    title,
                    description,
                    caller,
                    now,
                ),
                Action::Vote { proposal_id, asset_id, deposit, caller, in_favor, .. } => self.voted(
                    proposal_id,
                    asset_id,
                    deposit,
                    caller,
                    in_favor,
                ),
                Action::Close { proposal_id, referendum, .. } => self.closed(proposal_id, referendum),
                Action::Cancel { proposal_id, .. } => self.cancelled(proposal_id),
            }
        }
    }

    /// An accepted submission must leave room for one more identifier, and
    /// its deadline must be a block number.
    pub open spec fn submit_fits(self, deposit: nat, now: nat) -> bool {
        self.submit_refusal(deposit) is None ==> {
            &&& self.proposals.len() < u32::MAX
            &&& now + self.voting_period <= u32::MAX
        }
    }

    /// An accepted vote must leave the side's count and the voter's stake
    /// within their types.
    pub open spec fn vote_fits(
        self,
        proposal_id: u32,
        asset_id: u32,
        deposit: nat,
        caller: AccountId,
        now: nat,
        in_favor: bool,
    ) -> bool {
        self.vote_refusal(proposal_id, asset_id, deposit, now) is None ==> {
            &&& self.proposals[proposal_id as int].votes(in_favor) < u32::MAX
            &&& self.stake(proposal_id, caller, in_favor, asset_id) + deposit <= u128::MAX
        }
    }

    /// Both totals of the proposal are amounts.
    pub open spec fn tally_fits(self, proposal_id: u32) -> bool {
        &&& self.total(proposal_id, true) <= u128::MAX
        &&& self.total(proposal_id, false) <= u128::MAX
    }

    /// Every stake entry belongs to an existing proposal, is in a supported
    /// asset, and was made by a voter listed on its side.
    pub open spec fn stakes_accounted(self) -> bool {
        forall|key: StakeKey| #[trigger]
            self.stakes.dom().contains(key) ==> {
                &&& self.has(key.proposal_id)
                &&& self.supported_assets.contains(key.asset_id)
                &&& self.proposals[key.proposal_id as int].voters(key.in_favor).contains(key.voter)
            }
    }

    /// What holds of every state that the engine reaches.
    pub open spec fn wf(self) -> bool {
        &&& forall|i: int| 0 <= i < self.proposals.len() ==> (#[trigger] self.proposals[i]).wf()
        &&& self.supported_assets.no_duplicates()
        &&& self.stakes_accounted()
    }
}

/// A submission keeps the state well formed.
pub proof fn lemma_submitted_wf(
    s: EngineState,
    title: Seq<char>,
    description: Seq<char>,
    caller: AccountId,
    now: nat,
)
    requires
        s.wf(),
    ensures
        s.submitted(title, description, caller, now).wf(),
{
}

/// A vote on an existing proposal in a supported asset keeps the state well
/// formed.
pub proof fn lemma_voted_wf(
    s: EngineState,
    proposal_id: u32,
    asset_id: u32,
    deposit: nat,
    caller: AccountId,
    in_favor: bool,
)
    requires
        s.wf(),
        s.has(proposal_id),
        s.supported_assets.contains(asset_id),
    ensures
        s.voted(proposal_id, asset_id, deposit, caller, in_favor).wf(),
{
    lemma_joined_no_duplicates(s.proposals[proposal_id as int].voters(in_favor), caller);
}

/// Closing an existing proposal keeps the state well formed, provided that a
/// decision in favour comes with a reference.
pub proof fn lemma_closed_wf(s: EngineState, proposal_id: u32, referendum: Option<u32>)
    requires
        s.wf(),
        s.has(proposal_id),
        s.decision(proposal_id) == Outcome::InFavor ==> referendum is Some,
    ensures
        s.closed(proposal_id, referendum).wf(),
{
}

/// Cancelling an open proposal keeps the state well formed.
pub proof fn lemma_cancelled_wf(s: EngineState, proposal_id: u32)
    requires
        s.wf(),
        s.has(proposal_id),
        !s.proposals[proposal_id as int].closed,
    ensures
        s.cancelled(proposal_id).wf(),
{
}

} // verus!
