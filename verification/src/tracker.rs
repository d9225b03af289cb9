//! The engine: submission and voting, closing and cancelling, and the
//! queries on its state.

use vstd::prelude::*;
use crate::account::AccountId;
use crate::error::Error;
use crate::events::{ProposalCancelled, ProposalClosed, ProposalCreated, ProposalSubmissionFailed, Voted};
use crate::guard::authorized;
use crate::assets::{distinct, is_supported, lemma_distinct, listed_once, without_repetitions};
use crate::ledger::{
    distinct_keys, entries_map, lemma_entries_map_dom, Balance, StakeEntry, StakeKey, StakeLedger,
};
use crate::model::{
    lemma_cancelled_wf, lemma_closed_wf, lemma_submitted_wf, lemma_voted_wf, Action, EngineState,
};
use crate::proposal::{is_listed, BlockNumber, Outcome, Proposal, ProposalState};
use crate::store::ProposalStore;
use crate::tally::{side_total, voters_total};
use crate::wide::{resolve, Sum};

verus! {

/// The state that a configuration, a list of proposal records and a list of
/// stake lines stand for.
pub open spec fn restored_state(
    min_deposit: Balance,
    voting_period: BlockNumber,
    owner: AccountId,
    supported_assets: Seq<u32>,
    proposals: Seq<Proposal>,
    stakes: Seq<StakeEntry>,
) -> EngineState {
    EngineState {
        proposals: proposals.map_values(|p: Proposal| p@),
        stakes: entries_map(stakes),
        min_deposit: min_deposit as nat,
        voting_period: voting_period as nat,
        owner,
        supported_assets,
    }
}

/// Whether a configuration, a list of proposal records and a list of stake
/// lines are the tables of an engine: there is an identifier for every
/// record, no two stake lines share a key, and the state they stand for is
/// well formed.
pub open spec fn restorable(
    min_deposit: Balance,
    voting_period: BlockNumber,
    owner: AccountId,
    supported_assets: Seq<u32>,
    proposals: Seq<Proposal>,
    stakes: Seq<StakeEntry>,
) -> bool {
    &&& proposals.len() <= u32::MAX
    &&& distinct_keys(stakes)
    &&& restored_state(min_deposit, voting_period, owner, supported_assets, proposals, stakes).wf()
}

/// The governance engine: its configuration, the proposals and the stake
/// ledger.
#[derive(Debug, PartialEq, Eq)]
pub struct GovernanceTracker {
    tables: Tables,
    min_deposit: Balance,
    voting_period: BlockNumber,
    owner: AccountId,
    supported_assets: Vec<u32>,
}

/// The two tables of the engine. They change together: an operation takes
/// them out of the engine, changes them, and puts them back.
#[derive(Debug, PartialEq, Eq)]
struct Tables {
    proposals: ProposalStore,
    voter_stakes: StakeLedger,
}

impl Tables {
    /// Two empty tables.
    fn new() -> (tables: Tables)
        ensures
            tables.proposals@ == Seq::<ProposalState>::empty(),
            tables.voter_stakes@ == Map::<StakeKey, nat>::empty(),
    {
        Tables { proposals: ProposalStore::new(), voter_stakes: StakeLedger::new() }
    }
}

impl View for GovernanceTracker {
    type V = EngineState;

    closed spec fn view(&self) -> EngineState {
        EngineState {
            proposals: self.tables.proposals@,
            stakes: self.tables.voter_stakes@,
            min_deposit: self.min_deposit as nat,
            voting_period: self.voting_period as nat,
            owner: self.owner,
            supported_assets: self.supported_assets@,
        }
    }
}

impl Clone for GovernanceTracker {
    fn clone(&self) -> (copy: GovernanceTracker)
        ensures
            copy@ == self@,
    {
        proof {
            use_type_invariant(self);
        }
        GovernanceTracker {
            tables: Tables {
                proposals: self.tables.proposals.clone(),
                voter_stakes: self.tables.voter_stakes.clone(),
            },
            min_deposit: self.min_deposit,
            voting_period: self.voting_period,
            owner: self.owner,
            supported_assets: self.supported_assets.clone(),
        }
    }
}

impl GovernanceTracker {
    /// What holds of every engine: its state is well formed.
    #[verifier::type_invariant]
    spec fn well_formed(&self) -> bool {
        self@.wf()
    }

    /// An engine without proposals. Repetitions in `supported_assets` are
    /// dropped: the supported assets are a set.
    pub fn new(
        min_deposit: Balance,
        voting_period: BlockNumber,
        owner: AccountId,
        supported_assets: Vec<u32>,
    ) -> (tracker: GovernanceTracker)
        ensures
            tracker@.wf(),
            tracker@ == EngineState::initial(
                min_deposit as nat,
                voting_period as nat,
                owner,
                distinct(supported_assets@),
            ),
            supported_assets@.no_duplicates() ==> tracker@.supported_assets == supported_assets@,
    {
        let assets = without_repetitions(&supported_assets);
        proof {
            lemma_distinct(supported_assets@);
        }
        GovernanceTracker {
            tables: Tables::new(),
            min_deposit,
            voting_period,
            owner,
            supported_assets: assets,
        }
    }

    /// Whether a submission with these inputs meets what `submit_proposal`
    /// requires.
    pub fn submit_fits(&self, deposit: Balance, now: BlockNumber) -> (fits: bool)
        ensures
            fits == self@.submit_fits(deposit as nat, now as nat),
    {
        deposit < self.min_deposit || (self.tables.proposals.count() < u32::MAX && now.checked_add(
            self.voting_period,
        ).is_some())
    }

    /// Stores a new proposal of `caller`, open for votes until `now` plus the
    /// voting period, under the next identifier. Fails with
    /// `InsufficientDeposit`, changing nothing, where `deposit` is below the
    /// minimum deposit.
    pub fn submit_proposal(
        &mut self,
        title: String,
        description: String,
        deposit: Balance,
        caller: AccountId,
        now: BlockNumber,
    ) -> (submitted: Result<ProposalCreated, Error>)
        requires
            old(self)@.submit_fits(deposit as nat, now as nat),
        ensures
            final(self)@.wf(),
            final(self)@ == old(self)@.apply(
                Action::Submit {
                    title: title@,
                    description: description@,
                    deposit: deposit as nat,
                    caller,
                    now: now as nat,
                },
            ),
            match submitted {
                Ok(event) => {
                    &&& old(self)@.submit_refusal(deposit as nat) is None
                    &&& final(self)@ == old(self)@.submitted(title@, description@, caller, now as nat)
                    &&& event.proposal_id == old(self)@.proposals.len()
                    &&& event.creator == caller
                    &&& event.title@ == title@
                },
                Err(e) => {
                    &&& old(self)@.submit_refusal(deposit as nat) == Some(e)
                    &&& final(self)@ == old(self)@
                },
            },
    {
        proof {
            use_type_invariant(&*self);
        }
        if deposit < self.min_deposit {
            return Err(Error::InsufficientDeposit);
        }
        let deadline = now + self.voting_period;
        let announced = title.clone();
        let proposal = Proposal::open(title, description, caller, deadline);
        let mut tables = Tables::new();
        std::mem::swap(&mut tables, &mut self.tables);
        let proposal_id = tables.proposals.create(proposal);
        proof {
            lemma_submitted_wf(old(self)@, title@, description@, caller, now as nat);
        }
        self.tables = tables;
        Ok(ProposalCreated { proposal_id, creator: caller, title: announced })
    }

    /// The record of a refused submission: it names the identifier that the
    /// proposal would have had.
    pub fn submission_failure(&self, error: Error) -> (event: ProposalSubmissionFailed)
        ensures
            event.proposal_id == self@.proposals.len(),
            event.error == error,
    {
        ProposalSubmissionFailed { proposal_id: self.tables.proposals.count(), error }
    }

    /// The checks that a vote must pass. Hands out the proposal's record.
    fn votable_proposal(&self, proposal_id: u32, asset_id: u32, deposit: Balance, now: BlockNumber) -> (found: Result<
        Proposal,
        Error,
    >)
        ensures
            match found {
                Ok(proposal) => {
                    &&& self@.vote_refusal(proposal_id, asset_id, deposit as nat, now as nat) is None
                    &&& proposal@ == self@.proposals[proposal_id as int]
                },
                Err(e) => self@.vote_refusal(proposal_id, asset_id, deposit as nat, now as nat)
                    == Some(e),
            },
    {
        if !is_supported(&self.supported_assets, asset_id) {
            return Err(Error::InvalidAsset);
        }
        let proposal = match self.tables.proposals.get(proposal_id) {
            Some(p) => p,
            None => {
                return Err(Error::ProposalNotFound);
            },
        };
        if proposal.closed {
            return Err(Error::ProposalClosed);
        }
        if now > proposal.deadline {
            return Err(Error::VotingPeriodEnded);
        }
        if deposit < self.min_deposit {
            return Err(Error::InsufficientDeposit);
        }
        Ok(proposal)
    }

    /// Whether a vote with these inputs meets what `vote_for` and
    /// `vote_against` require.
    pub fn vote_fits(
        &self,
        proposal_id: u32,
        asset_id: u32,
        deposit: Balance,
        caller: AccountId,
        now: BlockNumber,
        in_favor: bool,
    ) -> (fits: bool)
        ensures
            fits == self@.vote_fits(
                proposal_id,
                asset_id,
                deposit as nat,
                caller,
                now as nat,
                in_favor,
            ),
    {
        match self.votable_proposal(proposal_id, asset_id, deposit, now) {
            Ok(proposal) => {
                let votes = if in_favor {
                    proposal.supporter_count
                } else {
                    proposal.supporter_count_against
                };
                let stake = self.tables.voter_stakes.read_stake(proposal_id, caller, in_favor, asset_id);
                votes < u32::MAX && stake.checked_add(deposit).is_some()
            },
            Err(_) => true,
        }
    }

    /// Casts a vote on one side.
    fn cast_vote(
        &mut self,
        proposal_id: u32,
        asset_id: u32,
        deposit: Balance,
        caller: AccountId,
        now: BlockNumber,
        in_favor: bool,
    ) -> (cast: Result<Voted, Error>)
        requires
            old(self)@.vote_fits(proposal_id, asset_id, deposit as nat, caller, now as nat, in_favor),
        ensures
            final(self)@.wf(),
            final(self)@ == old(self)@.apply(
                Action::Vote {
                    proposal_id,
                    asset_id,
                    deposit: deposit as nat,
                    caller,
                    now: now as nat,
                    in_favor,
                },
            ),
            match cast {
                Ok(event) => {
                    &&& old(self)@.vote_refusal(proposal_id, asset_id, deposit as nat, now as nat) is None
                    &&& final(self)@ == old(self)@.voted(
                        proposal_id,
                        asset_id,
                        deposit as nat,
                        caller,
                        in_favor,
                    )
                    &&& event == (Voted {
                        proposal_id,
                        voter: caller,
                        in_favor,
                        amount: deposit,
                        asset_id,
                    })
                },
                Err(e) => {
                    &&& old(self)@.vote_refusal(proposal_id, asset_id, deposit as nat, now as nat)
                        == Some(e)
                    &&& final(self)@ == old(self)@
                },
            },
    {
        proof {
            use_type_invariant(&*self);
        }
        let mut proposal = match self.votable_proposal(proposal_id, asset_id, deposit, now) {
            Ok(p) => p,
            Err(e) => {
                return Err(e);
            },
        };
        proposal.record_vote(caller, in_favor);
        let mut tables = Tables::new();
        std::mem::swap(&mut tables, &mut self.tables);
        let stored = tables.proposals.update(proposal_id, proposal);
        tables.voter_stakes.record_stake(proposal_id, caller, in_favor, asset_id, deposit);
        proof {
            lemma_voted_wf(old(self)@, proposal_id, asset_id, deposit as nat, caller, in_favor);
        }
        self.tables = tables;
        match stored {
            Ok(_) => Ok(Voted { proposal_id, voter: caller, in_favor, amount: deposit, asset_id }),
            Err(e) => Err(e),
        }
    }

    /// Votes in favour of a proposal, staking `deposit` in the given asset.
    ///
    /// Refused, in this order, with `InvalidAsset` where the asset is not
    /// supported, `ProposalNotFound` where no proposal has the identifier,
    /// `ProposalClosed` where it is closed, `VotingPeriodEnded` where `now`
    /// is past its deadline, `InsufficientDeposit` where `deposit` is below
    /// the minimum deposit. A refused vote changes nothing.
    ///
    /// An accepted vote raises the count of votes in favour by one, lists the
    /// caller among the voters in favour unless already listed, and adds
    /// `deposit` to the caller's stake in favour in that asset.
    pub fn vote_for(
        &mut self,
        proposal_id: u32,
        asset_id: u32,
        deposit: Balance,
        caller: AccountId,
        now: BlockNumber,
    ) -> (cast: Result<Voted, Error>)
        requires
            old(self)@.vote_fits(proposal_id, asset_id, deposit as nat, caller, now as nat, true),
        ensures
            final(self)@.wf(),
            final(self)@ == old(self)@.apply(
                Action::Vote {
                    proposal_id,
                    asset_id,
                    deposit: deposit as nat,
                    caller,
                    now: now as nat,
                    in_favor: true,
                },
            ),
            match cast {
                Ok(event) => {
                    &&& old(self)@.vote_refusal(proposal_id, asset_id, deposit as nat, now as nat) is None
                    &&& final(self)@ == old(self)@.voted(
                        proposal_id,
                        asset_id,
                        deposit as nat,
                        caller,
                        true,
                    )
                    &&& event == (Voted {
                        proposal_id,
                        voter: caller,
                        in_favor: true,
                        amount: deposit,
                        asset_id,
                    })
                },
                Err(e) => {
                    &&& old(self)@.vote_refusal(proposal_id, asset_id, deposit as nat, now as nat)
                        == Some(e)
                    &&& final(self)@ == old(self)@
                },
            },
    {
        self.cast_vote(proposal_id, asset_id, deposit, caller, now, true)
    }

    /// Votes against a proposal, staking `deposit` in the given asset.
    ///
    /// Refused on the same inputs, with the same errors and in the same
    /// order, as a vote in favour. A refused vote changes nothing.
    ///
    /// An accepted vote raises the count of votes against by one, lists the
    /// caller among the voters against unless already listed, and adds
    /// `deposit` to the caller's stake against in that asset.
    pub fn vote_against(
        &mut self,
        proposal_id: u32,
        asset_id: u32,
        deposit: Balance,
        caller: AccountId,
        now: BlockNumber,
    ) -> (cast: Result<Voted, Error>)
        requires
            old(self)@.vote_fits(proposal_id, asset_id, deposit as nat, caller, now as nat, false),
        ensures
            final(self)@.wf(),
            final(self)@ == old(self)@.apply(
                Action::Vote {
                    proposal_id,
                    asset_id,
                    deposit: deposit as nat,
                    caller,
                    now: now as nat,
                    in_favor: false,
                },
            ),
            match cast {
                Ok(event) => {
                    &&& old(self)@.vote_refusal(proposal_id, asset_id, deposit as nat, now as nat) is None
                    &&& final(self)@ == old(self)@.voted(
                        proposal_id,
                        asset_id,
                        deposit as nat,
                        caller,
                        false,
                    )
                    &&& event == (Voted {
                        proposal_id,
                        voter: caller,
                        in_favor: false,
                        amount: deposit,
                        asset_id,
                    })
                },
                Err(e) => {
                    &&& old(self)@.vote_refusal(proposal_id, asset_id, deposit as nat, now as nat)
                        == Some(e)
                    &&& final(self)@ == old(self)@
                },
            },
    {
        self.cast_vote(proposal_id, asset_id, deposit, caller, now, false)
    }

    /// The checks that closing and cancelling share: the proposal exists, is
    /// open, and the caller may finalize it. Hands out the proposal's record.
    fn open_proposal(&self, proposal_id: u32, caller: AccountId) -> (found: Result<Proposal, Error>)
        ensures
            match found {
                Ok(proposal) => {
                    &&& self@.finalize_refusal(proposal_id, caller) is None
                    &&& proposal@ == self@.proposals[proposal_id as int]
                },
                Err(e) => self@.finalize_refusal(proposal_id, caller) == Some(e),
            },
    {
        let proposal = match self.tables.proposals.get(proposal_id) {
            Some(p) => p,
            None => {
                return Err(Error::ProposalNotFound);
            },
        };
        if proposal.closed {
            return Err(Error::AlreadyClosed);
        }
        if !authorized(&caller, &proposal.creator, &self.owner) {
            return Err(Error::NotCreator);
        }
        Ok(proposal)
    }

    /// The total that the listed voters have staked on one side of a
    /// proposal, over all supported assets.
    fn stake_total(&self, proposal_id: u32, in_favor: bool, voters: &Vec<AccountId>) -> (total: Sum)
        ensures
            total@ == side_total(
                self@.stakes,
                proposal_id,
                in_favor,
                self@.supported_assets,
                voters@,
            ),
    {
        let ghost stakes = self@.stakes;
        let ghost assets = self@.supported_assets;
        let ghost width = voters.len() + 1;
        let mut total = Sum::zero();
        let mut a: usize = 0;
        while a < self.supported_assets.len()
            invariant
                stakes == self@.stakes,
                assets == self@.supported_assets,
                width == voters.len() + 1,
                a <= assets.len(),
                total.high <= a * width,
                total@ == side_total(stakes, proposal_id, in_favor, assets.take(a as int), voters@),
            decreases assets.len() - a,
        {
            let asset_id = self.supported_assets[a];
            let mut subtotal = Sum::zero();
            let mut v: usize = 0;
            while v < voters.len()
                invariant
                        stakes == self@.stakes,
                    v <= voters.len(),
                    subtotal.high <= v,
                    subtotal@ == voters_total(
                        stakes,
                        proposal_id,
                        in_favor,
                        asset_id,
                        voters@.take(v as int),
                    ),
                decreases voters.len() - v,
            {
                let stake = self.tables.voter_stakes.read_stake(proposal_id, voters[v], in_favor, asset_id);
                proof {
                    assert(voters@.take(v + 1).drop_last() == voters@.take(v as int));
                }
                subtotal = subtotal.plus(stake);
                v += 1;
            }
            proof {
                assert(voters@.take(v as int) == voters@);
                assert(assets.take(a + 1).drop_last() == assets.take(a as int));
                assert(a * width + width == (a + 1) * width) by (nonlinear_arith);
                assert(a * width + width <= 0xFFFF_FFFF_FFFF_FFFF * 0x1_0000_0000_0000_0000) by (nonlinear_arith)
                    requires
                        a + 1 <= 0xFFFF_FFFF_FFFF_FFFF,
                        0 < width <= 0x1_0000_0000_0000_0000,
                ;
            }
            total = total.plus_sum(&subtotal);
            a += 1;
        }
        proof {
            assert(assets.take(a as int) == assets);
        }
        total
    }

    /// The totals staked for and against a proposal. Nothing where no
    /// proposal has the identifier, or where a total is more than the largest
    /// amount.
    pub fn tally(&self, proposal_id: u32) -> (totals: Option<(Balance, Balance)>)
        ensures
            match totals {
                Some((total_for, total_against)) => {
                    &&& self@.has(proposal_id)
                    &&& total_for == self@.total(proposal_id, true)
                    &&& total_against == self@.total(proposal_id, false)
                },
                None => !self@.has(proposal_id) || !self@.tally_fits(proposal_id),
            },
    {
        match self.tables.proposals.get(proposal_id) {
            Some(proposal) => {
                let total_for = self.stake_total(proposal_id, true, &proposal.for_voters);
                let total_against = self.stake_total(proposal_id, false, &proposal.against_voters);
                match (total_for.amount(), total_against.amount()) {
                    (Some(amount_for), Some(amount_against)) => Some((amount_for, amount_against)),
                    _ => None,
                }
            },
            None => None,
        }
    }

    /// The decision of the stakes recorded for a proposal.
    fn decision_for(&self, proposal_id: u32, proposal: &Proposal) -> (outcome: Outcome)
        requires
            self@.has(proposal_id),
            proposal@ == self@.proposals[proposal_id as int],
        ensures
            outcome == self@.decision(proposal_id),
    {
        let total_for = self.stake_total(proposal_id, true, &proposal.for_voters);
        let total_against = self.stake_total(proposal_id, false, &proposal.against_voters);
        resolve(&total_for, &total_against)
    }

    /// What closing the proposal would decide, or why closing is refused
    /// whatever the referendum subsystem answers. Changes nothing: it tells
    /// whether a referendum has to be requested before the proposal is
    /// closed.
    pub fn pending_outcome(&self, proposal_id: u32, caller: AccountId) -> (pending: Result<Outcome, Error>)
        ensures
            match pending {
                Ok(outcome) => self@.finalize_refusal(proposal_id, caller) is None && outcome
                    == self@.decision(proposal_id),
                Err(e) => self@.finalize_refusal(proposal_id, caller) == Some(e),
            },
    {
        match self.open_proposal(proposal_id, caller) {
            Ok(proposal) => Ok(self.decision_for(proposal_id, &proposal)),
            Err(e) => Err(e),
        }
    }

    /// Closes a proposal with the decision of its stakes: in favour where
    /// more is staked for than against, against where less, indecision where
    /// the totals are equal. Only the proposal's creator and the owner may
    /// close it, and only once.
    ///
    /// `referendum` is the answer of the referendum subsystem: a reference,
    /// or nothing where the submission failed or was not made. A decision in
    /// favour records the reference; without one the close fails with
    /// `ReferendumSubmissionFailed`. Any other decision records none.
    /// A refused close changes nothing.
    pub fn close_vote(&mut self, proposal_id: u32, caller: AccountId, referendum: Option<u32>) -> (closed: Result<
        ProposalClosed,
        Error,
    >)
        ensures
            final(self)@.wf(),
            final(self)@ == old(self)@.apply(Action::Close { proposal_id, caller, referendum }),
            match closed {
                Ok(event) => {
                    &&& old(self)@.close_refusal(proposal_id, caller, referendum) is None
                    &&& final(self)@ == old(self)@.closed(proposal_id, referendum)
                    &&& event == (ProposalClosed {
                        proposal_id,
                        result: old(self)@.decision(proposal_id),
                        referendum_index: old(self)@.recorded_reference(proposal_id, referendum),
                    })
                },
                Err(e) => {
                    &&& old(self)@.close_refusal(proposal_id, caller, referendum) == Some(e)
                    &&& final(self)@ == old(self)@
                },
            },
    {
        proof {
            use_type_invariant(&*self);
        }
        let mut proposal = match self.open_proposal(proposal_id, caller) {
            Ok(p) => p,
            Err(e) => {
                return Err(e);
            },
        };
        let result = self.decision_for(proposal_id, &proposal);
        let referendum_index = match result {
            Outcome::InFavor => match referendum {
                Some(index) => Some(index),
                None => {
                    return Err(Error::ReferendumSubmissionFailed);
                },
            },
            _ => None,
        };
        proposal.closed = true;
        proposal.result = result;
        proposal.referendum_index = referendum_index;
        let mut tables = Tables::new();
        std::mem::swap(&mut tables, &mut self.tables);
        let stored = tables.proposals.update(proposal_id, proposal);
        proof {
            lemma_closed_wf(old(self)@, proposal_id, referendum);
        }
        self.tables = tables;
        match stored {
            Ok(_) => Ok(ProposalClosed { proposal_id, result, referendum_index }),
            Err(e) => Err(e),
        }
    }

    /// Cancels a proposal: closes it without a decision, looking at no stake
    /// and recording no referendum. Only the proposal's creator and the owner
    /// may cancel it, and only while it is open. A refused cancellation
    /// changes nothing.
    pub fn cancel_proposal(&mut self, proposal_id: u32, caller: AccountId) -> (cancelled: Result<
        ProposalCancelled,
        Error,
    >)
        ensures
            final(self)@.wf(),
            final(self)@ == old(self)@.apply(Action::Cancel { proposal_id, caller }),
            match cancelled {
                Ok(event) => {
                    &&& old(self)@.finalize_refusal(proposal_id, caller) is None
                    &&& final(self)@ == old(self)@.cancelled(proposal_id)
                    &&& event == (ProposalCancelled { proposal_id })
                },
                Err(e) => {
                    &&& old(self)@.finalize_refusal(proposal_id, caller) == Some(e)
                    &&& final(self)@ == old(self)@
                },
            },
    {
        proof {
            use_type_invariant(&*self);
        }
        let mut proposal = match self.open_proposal(proposal_id, caller) {
            Ok(p) => p,
            Err(e) => {
                return Err(e);
            },
        };
        proposal.closed = true;
        proposal.result = Outcome::Unresolved;
        let mut tables = Tables::new();
        std::mem::swap(&mut tables, &mut self.tables);
        let stored = tables.proposals.update(proposal_id, proposal);
        proof {
            lemma_cancelled_wf(old(self)@, proposal_id);
        }
        self.tables = tables;
        match stored {
            Ok(_) => Ok(ProposalCancelled { proposal_id }),
            Err(e) => Err(e),
        }
    }

    /// The least value that a submission or a vote must carry.
    pub fn get_min_deposit(&self) -> (min_deposit: Balance)
        ensures
            min_deposit == self@.min_deposit,
    {
        self.min_deposit
    }

    /// The account that may close or cancel any proposal.
    pub fn get_owner(&self) -> (owner: AccountId)
        ensures
            owner == self@.owner,
    {
        self.owner
    }

    /// The assets in which votes are accepted.
    pub fn get_supported_assets(&self) -> (assets: Vec<u32>)
        ensures
            assets@ == self@.supported_assets,
    {
        self.supported_assets.clone()
    }

    /// How long after its submission a proposal accepts votes.
    pub fn get_voting_period(&self) -> (period: BlockNumber)
        ensures
            period == self@.voting_period,
    {
        self.voting_period
    }

    /// The number of proposals submitted so far: every identifier below it is
    /// in use, none from it on.
    pub fn get_proposal_count(&self) -> (count: u32)
        ensures
            count == self@.proposals.len(),
    {
        self.tables.proposals.count()
    }

    /// A copy of the proposal's record, if a proposal has the identifier.
    pub fn get_proposal(&self, proposal_id: u32) -> (found: Option<Proposal>)
        ensures
            match found {
                Some(proposal) => self@.has(proposal_id) && proposal@
                    == self@.proposals[proposal_id as int],
                None => !self@.has(proposal_id),
            },
    {
        self.tables.proposals.get(proposal_id)
    }

    /// The voters for and against a proposal, in the order of their first
    /// votes; two empty lists where no proposal has the identifier.
    pub fn get_voters(&self, proposal_id: u32) -> (voters: (Vec<AccountId>, Vec<AccountId>))
        ensures
            self@.has(proposal_id) ==> {
                &&& voters.0@ == self@.proposals[proposal_id as int].for_voters
                &&& voters.1@ == self@.proposals[proposal_id as int].against_voters
            },
            !self@.has(proposal_id) ==> voters.0@.len() == 0 && voters.1@.len() == 0,
    {
        match self.tables.proposals.get(proposal_id) {
            Some(p) => (p.for_voters, p.against_voters),
            None => (Vec::new(), Vec::new()),
        }
    }

    /// What a voter has staked for and against a proposal in one asset.
    pub fn get_voter_stakes(&self, proposal_id: u32, voter: AccountId, asset_id: u32) -> (stakes: (
        Balance,
        Balance,
    ))
        ensures
            stakes.0 == self@.stake(proposal_id, voter, true, asset_id),
            stakes.1 == self@.stake(proposal_id, voter, false, asset_id),
    {
        (
            self.tables.voter_stakes.read_stake(proposal_id, voter, true, asset_id),
            self.tables.voter_stakes.read_stake(proposal_id, voter, false, asset_id),
        )
    }

    /// Copies of the records of all proposals, in the order of their
    /// identifiers.
    pub fn proposals(&self) -> (records: Vec<Proposal>)
        ensures
            records@.map_values(|p: Proposal| p@) == self@.proposals,
    {
        self.tables.proposals.records()
    }

    /// The lines of the stake ledger: one for each voter, side and asset of a
    /// proposal on which a vote was accepted.
    pub fn stake_entries(&self) -> (entries: Vec<StakeEntry>)
        ensures
            distinct_keys(entries@),
            entries_map(entries@) == self@.stakes,
    {
        self.tables.voter_stakes.entries()
    }

    /// The engine with the given configuration and tables, as they were taken
    /// from another engine with `proposals` and `stake_entries`. Nothing
    /// where they are not the tables of an engine.
    pub fn restore(
        min_deposit: Balance,
        voting_period: BlockNumber,
        owner: AccountId,
        supported_assets: Vec<u32>,
        proposals: Vec<Proposal>,
        stakes: Vec<StakeEntry>,
    ) -> (tracker: Option<GovernanceTracker>)
        ensures
            tracker is Some <==> restorable(
                min_deposit,
                voting_period,
                owner,
                supported_assets@,
                proposals@,
                stakes@,
            ),
            tracker matches Some(t) ==> t@ == restored_state(
                min_deposit,
                voting_period,
                owner,
                supported_assets@,
                proposals@,
                stakes@,
            ),
    {
        let ghost state = restored_state(
            min_deposit,
            voting_period,
            owner,
            supported_assets@,
            proposals@,
            stakes@,
        );
        if !listed_once(&supported_assets) {
            return None;
        }
        let mut i: usize = 0;
        while i < proposals.len()
            invariant
                i <= proposals.len(),
                forall|k: int| 0 <= k < i ==> (#[trigger] proposals[k])@.wf(),
                state == restored_state(
                    min_deposit,
                    voting_period,
                    owner,
                    supported_assets@,
                    proposals@,
                    stakes@,
                ),
            decreases proposals.len() - i,
        {
            if !proposals[i].is_well_formed() {
                assert(!state.proposals[i as int].wf());
                return None;
            }
            i += 1;
        }
        let mut n: usize = 0;
        while n < stakes.len()
            invariant
                n <= stakes.len(),
                state == restored_state(
                    min_deposit,
                    voting_period,
                    owner,
                    supported_assets@,
                    proposals@,
                    stakes@,
                ),
                forall|k: int|
                    0 <= k < n ==> {
                        &&& state.has((#[trigger] stakes[k]).key.proposal_id)
                        &&& state.supported_assets.contains(stakes[k].key.asset_id)
                        &&& state.proposals[stakes[k].key.proposal_id as int].voters(
                            stakes[k].key.in_favor,
                        ).contains(stakes[k].key.voter)
                    },
            decreases stakes.len() - n,
        {
            let key = stakes[n].key;
            let accounted = (key.proposal_id as usize) < proposals.len() && is_supported(
                &supported_assets,
                key.asset_id,
            ) && if key.in_favor {
                is_listed(&proposals[key.proposal_id as usize].for_voters, &key.voter)
            } else {
                is_listed(&proposals[key.proposal_id as usize].against_voters, &key.voter)
            };
            if !accounted {
                proof {
                    lemma_entries_map_dom(stakes@, key);
                    assert(state.stakes.dom().contains(key));
                }
                return None;
            }
            n += 1;
        }
        proof {
            assert forall|key: StakeKey| #[trigger]
                state.stakes.dom().contains(key) implies {
                &&& state.has(key.proposal_id)
                &&& state.supported_assets.contains(key.asset_id)
                &&& state.proposals[key.proposal_id as int].voters(key.in_favor).contains(key.voter)
            } by {
                lemma_entries_map_dom(stakes@, key);
                let k = choose|k: int| 0 <= k < stakes.len() && (#[trigger] stakes[k]).key == key;
                assert(state.has(stakes[k].key.proposal_id));
            }
        }
        let store = match ProposalStore::from_records(proposals) {
            Some(store) => store,
            None => {
                return None;
            },
        };
        let ledger = match StakeLedger::from_entries(stakes) {
            Some(ledger) => ledger,
            None => {
                return None;
            },
        };
        Some(
            GovernanceTracker {
                tables: Tables { proposals: store, voter_stakes: ledger },
                min_deposit,
                voting_period,
                owner,
                supported_assets,
            },
        )
    }
}

} // verus!
