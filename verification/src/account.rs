use vstd::prelude::*;

verus! {

/// Opaque fixed-size identity of a token holder.
///
/// Accounts are only ever compared for equality; the numeric payload carries
/// no ordering or arithmetic meaning to the ledger.
#[derive(Clone, Copy, PartialEq, Eq, Hash, Debug, Structural)]
pub struct AccountId {
    pub id: u128,
}

impl AccountId {
    /// Wraps a raw identifier.
    pub fn from_id(id: u128) -> (r: Self)
        ensures
            r.id == id,
    {
        AccountId { id }
    }
}

} // verus!
