//! Proposals: the record kept for each, and what a vote does to it.

use vstd::prelude::*;
use crate::account::AccountId;

verus! {

/// A block or sequence number: the engine's measure of time.
pub type BlockNumber = u32;

/// How a proposal ended. `Unresolved` is the state of a proposal that is
/// still open, and of one that was cancelled.
#[derive(Clone, Copy, Debug, PartialEq, Eq, Structural)]
pub enum Outcome {
    /// No decision was taken.
    Unresolved,
    /// Strictly more was staked for the proposal than against it.
    InFavor,
    /// Strictly more was staked against the proposal than for it.
    Against,
    /// As much was staked for the proposal as against it.
    Indecision,
}

/// The name of a decision; none for a proposal without a decision.
pub open spec fn label_of(outcome: Outcome) -> Option<Seq<char>> {
    match outcome {
        Outcome::Unresolved => None,
        Outcome::InFavor => Some("In Favor"@),
        Outcome::Against => Some("Against"@),
        Outcome::Indecision => Some("Indecision"@),
    }
}

impl Outcome {
    /// The name of a decision: "In Favor", "Against" or "Indecision"; none
    /// for a proposal without a decision.
    pub fn label(&self) -> (name: Option<&'static str>)
        ensures
            match name {
                Some(text) => label_of(*self) == Some(text@),
                None => label_of(*self) is None,
            },
    {
        match self {
            Outcome::Unresolved => None,
            Outcome::InFavor => Some("In Favor"),
            Outcome::Against => Some("Against"),
            Outcome::Indecision => Some("Indecision"),
        }
    }

    /// The decision that has the given name; none where the text names no
    /// decision.
    pub fn named(name: &str) -> (outcome: Option<Outcome>)
        ensures
            match outcome {
                Some(o) => label_of(o) == Some(name@),
                None => forall|o: Outcome| label_of(o) != Some(name@),
            },
    {
        let text = String::from_str(name);
        if text == String::from_str("In Favor") {
            Some(Outcome::InFavor)
        } else if text == String::from_str("Against") {
            Some(Outcome::Against)
        } else if text == String::from_str("Indecision") {
            Some(Outcome::Indecision)
        } else {
            None
        }
    }
}

/// The record of one proposal.
#[derive(Debug, PartialEq, Eq)]
pub struct Proposal {
    pub title: String,
    pub description: String,
    pub creator: AccountId,
    /// Accepted votes in favour, counted once per vote.
    pub supporter_count: u32,
    /// Accepted votes against, counted once per vote.
    pub supporter_count_against: u32,
    pub closed: bool,
    pub result: Outcome,
    /// The last block at which a vote is accepted.
    pub deadline: BlockNumber,
    /// The accounts that voted in favour, each once, in the order of their
    /// first vote.
    pub for_voters: Vec<AccountId>,
    /// The accounts that voted against, each once, in the order of their
    /// first vote.
    pub against_voters: Vec<AccountId>,
    /// The reference that the referendum subsystem gave, for a proposal that
    /// was resolved in favour.
    pub referendum_index: Option<u32>,
}

/// What a proposal record says, as mathematics: texts and voter lists are
/// sequences, counts and the deadline are unbounded naturals.
pub struct ProposalState {
    pub title: Seq<char>,
    pub description: Seq<char>,
    pub creator: AccountId,
    pub supporter_count: nat,
    pub supporter_count_against: nat,
    pub closed: bool,
    pub result: Outcome,
    pub deadline: nat,
    pub for_voters: Seq<AccountId>,
    pub against_voters: Seq<AccountId>,
    pub referendum_index: Option<u32>,
}

impl ProposalState {
    /// A proposal as it is right after submission: open, unresolved, without
    /// votes.
    pub open spec fn fresh(
        title: Seq<char>,
        description: Seq<char>,
        creator: AccountId,
        deadline: nat,
    ) -> ProposalState {
        ProposalState {
            title,
            description,
            creator,
            supporter_count: 0,
            supporter_count_against: 0,
            closed: false,
            result: Outcome::Unresolved,
            deadline,
            for_voters: Seq::empty(),
            against_voters: Seq::empty(),
            referendum_index: None,
        }
    }

    /// The accounts recorded on one side.
    pub open spec fn voters(self, in_favor: bool) -> Seq<AccountId> {
        if in_favor {
            self.for_voters
        } else {
            self.against_voters
        }
    }

    /// The number of votes accepted on one side.
    pub open spec fn votes(self, in_favor: bool) -> nat {
        if in_favor {
            self.supporter_count
        } else {
            self.supporter_count_against
        }
    }

    /// The record after one more accepted vote of `voter` on the given side:
    /// the side's count grows by one; the voter joins the side's list unless
    /// already on it.
    pub open spec fn with_vote(self, voter: AccountId, in_favor: bool) -> ProposalState {
        if in_favor {
            ProposalState {
                supporter_count: self.supporter_count + 1,
                for_voters: joined(self.for_voters, voter),
                ..self
            }
        } else {
            ProposalState {
                supporter_count_against: self.supporter_count_against + 1,
                against_voters: joined(self.against_voters, voter),
                ..self
            }
        }
    }

    /// The record once resolved: closed, with the outcome and the referendum
    /// reference, if any.
    pub open spec fn resolved(self, result: Outcome, referendum_index: Option<u32>) -> ProposalState {
        ProposalState { closed: true, result, referendum_index, ..self }
    }

    /// The record once cancelled: closed without a decision.
    pub open spec fn cancelled(self) -> ProposalState {
        ProposalState { closed: true, result: Outcome::Unresolved, ..self }
    }

    /// What holds of every proposal record that the engine keeps.
    pub open spec fn wf(self) -> bool {
        &&& self.for_voters.no_duplicates()
        &&& self.against_voters.no_duplicates()
        &&& self.for_voters.len() <= self.supporter_count
        &&& self.against_voters.len() <= self.supporter_count_against
        &&& !self.closed ==> self.result == Outcome::Unresolved
        &&& (self.result == Outcome::InFavor) == (self.referendum_index is Some)
    }
}

/// A list of accounts after `voter` has joined it: unchanged where the voter
/// is already on it, else longer by the voter at its end.
pub open spec fn joined(voters: Seq<AccountId>, voter: AccountId) -> Seq<AccountId> {
    if voters.contains(voter) {
        voters
    } else {
        voters.push(voter)
    }
}

impl View for Proposal {
    type V = ProposalState;

    open spec fn view(&self) -> ProposalState {
        ProposalState {
            title: self.title@,
            description: self.description@,
            creator: self.creator,
            supporter_count: self.supporter_count as nat,
            supporter_count_against: self.supporter_count_against as nat,
            closed: self.closed,
            result: self.result,
            deadline: self.deadline as nat,
            for_voters: self.for_voters@,
            against_voters: self.against_voters@,
            referendum_index: self.referendum_index,
        }
    }
}

impl Clone for Proposal {
    fn clone(&self) -> (copy: Proposal)
        ensures
            copy@ == self@,
    {
        Proposal {
            title: self.title.clone(),
            description: self.description.clone(),
            creator: self.creator,
            supporter_count: self.supporter_count,
            supporter_count_against: self.supporter_count_against,
            closed: self.closed,
            result: self.result,
            deadline: self.deadline,
            for_voters: self.for_voters.clone(),
            against_voters: self.against_voters.clone(),
            referendum_index: self.referendum_index,
        }
    }
}

/// Whether `voter` is on the list.
pub fn is_listed(voters: &Vec<AccountId>, voter: &AccountId) -> (found: bool)
    ensures
        found == voters@.contains(*voter),
{
    let mut i: usize = 0;
    while i < voters.len()
        invariant
            i <= voters.len(),
            forall|j: int| 0 <= j < i ==> voters[j] != *voter,
        decreases voters.len() - i,
    {
        if voters[i] == *voter {
            return true;
        }
        i += 1;
    }
    false
}

/// Whether no account is listed twice.
pub fn each_listed_once(voters: &Vec<AccountId>) -> (once: bool)
    ensures
        once == voters@.no_duplicates(),
{
    let mut i: usize = 0;
    while i < voters.len()
        invariant
            i <= voters.len(),
            forall|a: int, b: int| 0 <= a < b < i ==> voters[a] != voters[b],
        decreases voters.len() - i,
    {
        let mut j: usize = 0;
        while j < i
            invariant
                j <= i < voters.len(),
                forall|a: int| 0 <= a < j ==> voters[a] != voters[i as int],
            decreases i - j,
        {
            if voters[j] == voters[i] {
                return false;
            }
            j += 1;
        }
        i += 1;
    }
    true
}

impl Proposal {
    /// Whether the record is one that the engine could have written.
    pub fn is_well_formed(&self) -> (ok: bool)
        ensures
            ok == self@.wf(),
    {
        each_listed_once(&self.for_voters) && each_listed_once(&self.against_voters)
            && self.for_voters.len() <= self.supporter_count as usize
            && self.against_voters.len() <= self.supporter_count_against as usize
            && (self.closed || self.result == Outcome::Unresolved)
            && (self.result == Outcome::InFavor) == self.referendum_index.is_some()
    }

    /// A new proposal: open, unresolved, without votes.
    pub fn open(title: String, description: String, creator: AccountId, deadline: BlockNumber) -> (proposal:
        Proposal)
        ensures
            proposal@ == ProposalState::fresh(title@, description@, creator, deadline as nat),
            proposal@.wf(),
    {
        Proposal {
            title,
            description,
            creator,
            supporter_count: 0,
            supporter_count_against: 0,
            closed: false,
            result: Outcome::Unresolved,
            deadline,
            for_voters: Vec::new(),
            against_voters: Vec::new(),
            referendum_index: None,
        }
    }

    /// Counts one more accepted vote of `voter` on the given side, and lists
    /// the voter on that side unless already listed.
    pub fn record_vote(&mut self, voter: AccountId, in_favor: bool)
        requires
            old(self)@.votes(in_favor) < u32::MAX,
        ensures
            final(self)@ == old(self)@.with_vote(voter, in_favor),
            old(self)@.wf() ==> final(self)@.wf(),
    {
        if in_favor {
            self.supporter_count += 1;
            if !is_listed(&self.for_voters, &voter) {
                self.for_voters.push(voter);
            }
        } else {
            self.supporter_count_against += 1;
            if !is_listed(&self.against_voters, &voter) {
                self.against_voters.push(voter);
            }
        }
        proof {
            if old(self)@.wf() {
                lemma_joined_no_duplicates(old(self)@.for_voters, voter);
                lemma_joined_no_duplicates(old(self)@.against_voters, voter);
            }
        }
    }
}

/// Joining a list without duplicates leaves it without duplicates.
pub proof fn lemma_joined_no_duplicates(voters: Seq<AccountId>, voter: AccountId)
    requires
        voters.no_duplicates(),
    ensures
        joined(voters, voter).no_duplicates(),
        joined(voters, voter).contains(voter),
        joined(voters, voter).len() <= voters.len() + 1,
        forall|other: AccountId|
            joined(voters, voter).contains(other) <==> (other == voter || voters.contains(other)),
{
    if !voters.contains(voter) {
        let longer = voters.push(voter);
        assert(longer[voters.len() as int] == voter);
        assert forall|other: AccountId| longer.contains(other) <==> (other == voter
            || voters.contains(other)) by {
            if voters.contains(other) {
                let i = choose|i: int| 0 <= i < voters.len() && voters[i] == other;
                assert(longer[i] == other);
            }
        }
    }
}

} // verus!
