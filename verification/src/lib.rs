//! A verified fungible-token ledger.
//!
//! The ledger tracks per-account balances and per-(owner, spender) spending
//! allowances, together with immutable descriptive metadata (name, symbol,
//! decimal precision) and a fixed total supply. Every mutating operation is
//! proved to preserve the conservation invariant: the balances always sum to
//! exactly the total supply. Failures are pure rejections — a failed operation
//! leaves the ledger untouched.

pub mod account;
pub mod allowances;
pub mod balances;
pub mod errors;
pub mod token;

pub use account::AccountId;
pub use errors::Error;
pub use token::ERC20;
