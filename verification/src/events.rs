use vstd::prelude::*;

use crate::account::AccountId;
use crate::account::Balance;

verus! {

/// A movement of `value` tokens to `to`. `from` is `None` only for the
/// construction-time credit of the initial supply; every later transfer names
/// its source account.
#[derive(Clone, Copy, Debug, PartialEq, Eq)]
pub struct Transfer {
    pub from: Option<AccountId>,
    pub to: AccountId,
    pub value: Balance,
}

/// An approval: `from` grants `to` the right to spend up to `value` tokens on
/// its behalf.
#[derive(Clone, Copy, Debug, PartialEq, Eq)]
pub struct Approve {
    pub from: AccountId,
    pub to: AccountId,
    pub value: Balance,
}

/// One record of the ledger's event log, in the order the state changes
/// happened, for the host to deliver to external subscribers.
#[derive(Clone, Copy, Debug, PartialEq, Eq)]
pub enum Event {
    Transfer(Transfer),
    Approve(Approve),
}

/// The event record of a transfer, as contracts state it.
pub open spec fn transfer_event(from: Option<AccountId>, to: AccountId, value: Balance) -> Event {
    Event::Transfer(Transfer { from, to, value })
}

/// The event record of an approval, as contracts state it.
pub open spec fn approve_event(from: AccountId, to: AccountId, value: Balance) -> Event {
    Event::Approve(Approve { from, to, value })
}

} // verus!
