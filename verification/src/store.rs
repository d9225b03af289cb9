//! The proposal store: proposals under dense identifiers, starting at zero,
//! never reused. A record is read and replaced as a whole.

use vstd::prelude::*;
use crate::error::Error;
use crate::proposal::{Proposal, ProposalState};

verus! {

/// The table of all proposals ever submitted.
#[derive(Debug, PartialEq, Eq)]
pub struct ProposalStore {
    proposals: Vec<Proposal>,
}

impl View for ProposalStore {
    type V = Seq<ProposalState>;

    /// The records in the order of their identifiers.
    closed spec fn view(&self) -> Seq<ProposalState> {
        self.proposals@.map_values(|p: Proposal| p@)
    }
}

impl Clone for ProposalStore {
    fn clone(&self) -> (copy: ProposalStore)
        ensures
            copy@ == self@,
    {
        proof {
            use_type_invariant(self);
        }
        let mut proposals: Vec<Proposal> = Vec::new();
        let mut i: usize = 0;
        while i < self.proposals.len()
            invariant
                i <= self.proposals.len(),
                proposals.len() == i,
                forall|j: int| 0 <= j < i ==> (#[trigger] proposals[j])@ == self.proposals[j]@,
            decreases self.proposals.len() - i,
        {
            proposals.push(self.proposals[i].clone());
            i += 1;
        }
        ProposalStore { proposals }
    }
}

impl ProposalStore {
    /// There is an identifier for every record.
    #[verifier::type_invariant]
    spec fn identifiers_suffice(&self) -> bool {
        self.proposals.len() <= u32::MAX
    }

    /// A store without proposals.
    pub fn new() -> (store: ProposalStore)
        ensures
            store@ == Seq::<ProposalState>::empty(),
    {
        ProposalStore { proposals: Vec::new() }
    }

    /// The store that holds the given records, the first under identifier
    /// zero; none where they are more than there are identifiers.
    pub fn from_records(records: Vec<Proposal>) -> (store: Option<ProposalStore>)
        ensures
            match store {
                Some(s) => records@.len() <= u32::MAX && s@ == records@.map_values(|p: Proposal| p@),
                None => records@.len() > u32::MAX,
            },
    {
        if records.len() <= u32::MAX as usize {
            Some(ProposalStore { proposals: records })
        } else {
            None
        }
    }

    /// Copies of all the records, in the order of their identifiers.
    pub fn records(&self) -> (records: Vec<Proposal>)
        ensures
            records@.len() <= u32::MAX,
            records@.map_values(|p: Proposal| p@) == self@,
    {
        let copy = self.clone();
        proof {
            use_type_invariant(&copy);
        }
        copy.proposals
    }

    /// The number of proposals, which is the next identifier to be given.
    pub fn count(&self) -> (n: u32)
        ensures
            n == self@.len(),
    {
        proof {
            use_type_invariant(self);
        }
        self.proposals.len() as u32
    }

    /// Stores a new proposal under the next identifier and returns that
    /// identifier.
    pub fn create(&mut self, proposal: Proposal) -> (id: u32)
        requires
            old(self)@.len() < u32::MAX,
        ensures
            id == old(self)@.len(),
            final(self)@ == old(self)@.push(proposal@),
    {
        let id = self.count();
        let mut proposals: Vec<Proposal> = Vec::new();
        std::mem::swap(&mut proposals, &mut self.proposals);
        proposals.push(proposal);
        self.proposals = proposals;
        id
    }

    /// A copy of the proposal with the given identifier, if there is one.
    pub fn get(&self, id: u32) -> (found: Option<Proposal>)
        ensures
            match found {
                Some(proposal) => id < self@.len() && proposal@ == self@[id as int],
                None => id >= self@.len(),
            },
    {
        if (id as usize) < self.proposals.len() {
            Some(self.proposals[id as usize].clone())
        } else {
            None
        }
    }

    /// Replaces the whole record of the proposal with the given identifier.
    /// Fails with `ProposalNotFound`, changing nothing, where no proposal has
    /// it.
    pub fn update(&mut self, id: u32, proposal: Proposal) -> (done: Result<(), Error>)
        ensures
            match done {
                Ok(_) => id < old(self)@.len() && final(self)@ == old(self)@.update(
                    id as int,
                    proposal@,
                ),
                Err(e) => e == Error::ProposalNotFound && id >= old(self)@.len() && final(self)@
                    == old(self)@,
            },
    {
        if (id as usize) < self.proposals.len() {
            proof {
                use_type_invariant(&*self);
            }
            let mut proposals: Vec<Proposal> = Vec::new();
            std::mem::swap(&mut proposals, &mut self.proposals);
            proposals.set(id as usize, proposal);
            self.proposals = proposals;
            Ok(())
        } else {
            Err(Error::ProposalNotFound)
        }
    }
}

} // verus!
