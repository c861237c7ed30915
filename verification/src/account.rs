use vstd::prelude::*;

verus! {

/// An account identifier: an opaque, equality-comparable value used only as a
/// map key. The ledger never interprets its internal structure.
#[derive(Clone, Copy, Debug, PartialEq, Eq, Structural)]
pub struct AccountId(pub u64);

/// Token amounts: balances, allowances and the total supply. Wide enough to
/// hold the whole supply, so conserved arithmetic cannot overflow.
pub type Balance = u128;

} // verus!
