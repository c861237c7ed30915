//! A fungible-token ledger: per-account balances, per-(owner, spender)
//! allowances, and the transfer/approval state-transition logic that keeps the
//! total issued supply conserved.
//!
//! The hosting environment supplies the caller's identity with every mutating
//! call; the ledger takes it as an explicit parameter so the bookkeeping stays
//! environment-agnostic. Emitted events are recorded in an in-ledger log for
//! the host to deliver to its subscribers.

pub mod account;
pub mod allowances;
pub mod balances;
pub mod events;
pub mod ledger;

pub use account::AccountId;
pub use account::Balance;
pub use events::Approve;
pub use events::Event;
pub use events::Transfer;
pub use ledger::Erc20;
pub use ledger::Error;
