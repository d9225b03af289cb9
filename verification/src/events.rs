//! The records that the engine hands out for each thing that happened.

use vstd::prelude::*;
use crate::account::AccountId;
use crate::error::Error;
use crate::ledger::Balance;
use crate::proposal::Outcome;
use crate::text::{append_decimal, decimal};

verus! {

/// A proposal was accepted and stored.
#[derive(Debug, PartialEq, Eq)]
pub struct ProposalCreated {
    pub proposal_id: u32,
    pub creator: AccountId,
    pub title: String,
}

impl Clone for ProposalCreated {
    fn clone(&self) -> (copy: ProposalCreated)
        ensures
            copy == *self,
    {
        ProposalCreated {
            proposal_id: self.proposal_id,
            creator: self.creator,
            title: self.title.clone(),
        }
    }
}

/// A vote was accepted.
#[derive(Clone, Copy, Debug, PartialEq, Eq)]
pub struct Voted {
    pub proposal_id: u32,
    pub voter: AccountId,
    pub in_favor: bool,
    pub amount: Balance,
    pub asset_id: u32,
}

/// A proposal was closed with the decision of its stakes.
#[derive(Clone, Copy, Debug, PartialEq, Eq, Structural)]
pub struct ProposalClosed {
    pub proposal_id: u32,
    pub result: Outcome,
    pub referendum_index: Option<u32>,
}

/// A proposal was cancelled.
#[derive(Clone, Copy, Debug, PartialEq, Eq, Structural)]
pub struct ProposalCancelled {
    pub proposal_id: u32,
}

/// A submission was refused. `proposal_id` is the identifier that the
/// proposal would have had.
#[derive(Clone, Copy, Debug, PartialEq, Eq, Structural)]
pub struct ProposalSubmissionFailed {
    pub proposal_id: u32,
    pub error: Error,
}

/// A notice for another chain.
#[derive(Debug, PartialEq, Eq)]
pub struct CrossChainMessage {
    pub proposal_id: u32,
    pub target_chain: u32,
    pub message: String,
}

impl Clone for CrossChainMessage {
    fn clone(&self) -> (copy: CrossChainMessage)
        ensures
            copy == *self,
    {
        CrossChainMessage {
            proposal_id: self.proposal_id,
            target_chain: self.target_chain,
            message: self.message.clone(),
        }
    }
}

/// The chain that notices are addressed to.
pub const NOTICE_TARGET_CHAIN: u32 = 1000;

impl CrossChainMessage {
    /// The wording of the notice that a proposal was created.
    pub open spec fn created_text(proposal_id: u32, title: Seq<char>) -> Seq<char> {
        "New proposal "@ + decimal(proposal_id as nat) + " created: "@ + title
    }

    /// The wording of the notice that a proposal passed and went to a
    /// referendum.
    pub open spec fn passed_text(proposal_id: u32, referendum_index: u32) -> Seq<char> {
        "Proposal "@ + decimal(proposal_id as nat) + " passed, referendum "@ + decimal(
            referendum_index as nat,
        ) + " submitted"@
    }

    /// The notice for other chains that a proposal was created.
    pub fn proposal_created(event: &ProposalCreated) -> (notice: CrossChainMessage)
        ensures
            notice.proposal_id == event.proposal_id,
            notice.target_chain == NOTICE_TARGET_CHAIN,
            notice.message@ == Self::created_text(event.proposal_id, event.title@),
    {
        let mut message = String::from_str("New proposal ");
        append_decimal(&mut message, event.proposal_id);
        message.append(" created: ");
        message.append(event.title.as_str());
        CrossChainMessage {
            proposal_id: event.proposal_id,
            target_chain: NOTICE_TARGET_CHAIN,
            message,
        }
    }

    /// The notice for other chains that a proposal passed and went to a
    /// referendum: one for a close that recorded a referendum reference, none
    /// for any other.
    pub fn referendum_submitted(event: &ProposalClosed) -> (notice: Option<CrossChainMessage>)
        ensures
            match notice {
                Some(n) => {
                    &&& event.referendum_index is Some
                    &&& n.proposal_id == event.proposal_id
                    &&& n.target_chain == NOTICE_TARGET_CHAIN
                    &&& n.message@ == Self::passed_text(
                        event.proposal_id,
                        event.referendum_index->Some_0,
                    )
                },
                None => event.referendum_index is None,
            },
    {
        match event.referendum_index {
            Some(index) => {
                let mut message = String::from_str("Proposal ");
                append_decimal(&mut message, event.proposal_id);
                message.append(" passed, referendum ");
                append_decimal(&mut message, index);
                message.append(" submitted");
                Some(
                    CrossChainMessage {
                        proposal_id: event.proposal_id,
                        target_chain: NOTICE_TARGET_CHAIN,
                        message,
                    },
                )
            },
            None => None,
        }
    }
}

} // verus!
