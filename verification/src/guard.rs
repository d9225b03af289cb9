//! The access guard for closing and cancelling.

use vstd::prelude::*;
use crate::account::AccountId;

verus! {

/// Whether `caller` may close or cancel a proposal: only its creator and the
/// engine's owner may.
pub fn authorized(caller: &AccountId, creator: &AccountId, owner: &AccountId) -> (allowed: bool)
    ensures
        allowed == (*caller == *creator || *caller == *owner),
{
    *caller == *creator || *caller == *owner
}

} // verus!
