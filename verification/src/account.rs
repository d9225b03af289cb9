//! Account identifiers.

use vstd::prelude::*;
use vstd::std_specs::cmp::PartialEqSpecImpl;

verus! {

/// The identifier of an account: thirty-two bytes, compared byte by byte.
#[derive(Clone, Copy, Debug, Eq, Hash)]
pub struct AccountId {
    pub bytes: [u8; 32],
}

impl AccountId {
    /// The account with the given bytes.
    pub fn new(bytes: [u8; 32]) -> (id: AccountId)
        ensures
            id.bytes == bytes,
    {
        AccountId { bytes }
    }
}

impl PartialEq for AccountId {
    /// Two identifiers are equal exactly when all their bytes are.
    fn eq(&self, other: &AccountId) -> (r: bool) {
        let mut i: usize = 0;
        while i < 32
            invariant
                i <= 32,
                forall|j: int| 0 <= j < i ==> self.bytes[j] == other.bytes[j],
            decreases 32 - i,
        {
            if self.bytes[i] != other.bytes[i] {
                return false;
            }
            i += 1;
        }
        assert(self.bytes =~= other.bytes);
        true
    }
}

impl PartialEqSpecImpl for AccountId {
    open spec fn obeys_eq_spec() -> bool {
        true
    }

    open spec fn eq_spec(&self, other: &AccountId) -> bool {
        *self == *other
    }
}

} // verus!
