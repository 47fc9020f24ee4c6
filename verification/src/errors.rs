use vstd::prelude::*;

verus! {

/// The ways a ledger operation can be refused.
///
/// Every failure is reported synchronously to the caller and leaves the
/// ledger state exactly as it was: no operation performs a partial mutation.
#[derive(Clone, Copy, PartialEq, Eq, Debug, Structural)]
pub enum Error {
    /// The source account holds less than the requested transfer amount.
    InsufficientBalance,
    /// The spender's delegated allowance from the owner is less than the
    /// requested amount.
    AllowanceExceeded,
    /// Crediting the recipient would exceed the representable balance range.
    Overflow,
}

} // verus!
