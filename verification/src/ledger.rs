use vstd::prelude::*;

use crate::account::AccountId;
use crate::account::Balance;
use crate::allowances::AllowanceStore;
use crate::allowances::holds_pair;
use crate::allowances::lemma_allowance_absent;
use crate::balances::BalanceStore;
use crate::balances::holds_account;
use crate::balances::lemma_balance_absent;
use crate::balances::lemma_balance_le_sum;
use crate::balances::sum_of;
use crate::events::Approve;
use crate::events::Event;
use crate::events::Transfer;
use crate::events::approve_event;
use crate::events::transfer_event;

verus! {

/// The typed failures of the mutating operations. Both are returned to the
/// immediate caller; neither is ever raised as a panic or retried internally.
#[derive(Clone, Copy, Debug, PartialEq, Eq)]
pub enum Error {
    /// An attempted transfer exceeds the source account's balance.
    BalanceTooLow,
    /// An attempted delegated transfer exceeds the caller's remaining
    /// allowance from the source account.
    AllowanceTooLow,
}

/// The fungible-token ledger: per-account balances, per-(owner, spender)
/// allowances, the immutable total supply, and the log of emitted events.
///
/// The hosting environment supplies the caller's identity; every mutating
/// operation takes it as an explicit `caller` parameter.
pub struct Erc20 {
    pub total_supply: Balance,
    pub balances: BalanceStore,
    pub allowances: AllowanceStore,
    pub events: Vec<Event>,
}

/// The balance movement of a successful transfer of `value` from `from` to
/// `to`: `from` loses it, `to` gains it (a self-transfer nets to no change),
/// and every other account is untouched.
pub open spec fn balances_moved(
    pre: Erc20,
    post: Erc20,
    from: AccountId,
    to: AccountId,
    value: Balance,
) -> bool {
    &&& (from == to ==> post.spec_balance_of(from) == pre.spec_balance_of(from))
    &&& (from != to ==> post.spec_balance_of(from) == pre.spec_balance_of(from) - value)
    &&& (from != to ==> post.spec_balance_of(to) == pre.spec_balance_of(to) + value)
    &&& (forall|x: AccountId|
        x != from && x != to ==> #[trigger] post.spec_balance_of(x) == pre.spec_balance_of(x))
}

impl Erc20 {
    /// Well-formed: both stores hold at most one entry per key, and the
    /// recorded balances sum to exactly the total supply (conservation).
    pub open spec fn wf(&self) -> bool {
        &&& self.balances.wf()
        &&& self.allowances.wf()
        &&& self.balances.total() == self.total_supply as int
    }

    /// The fixed total supply, as contracts speak of it.
    pub open spec fn spec_total_supply(&self) -> Balance {
        self.total_supply
    }

    /// The balance of `a`; never-touched accounts hold zero.
    pub open spec fn spec_balance_of(&self, a: AccountId) -> Balance {
        self.balances.spec_get(a)
    }

    /// The allowance `o` has granted `p`; never-touched pairs hold zero.
    pub open spec fn spec_allowance(&self, o: AccountId, p: AccountId) -> Balance {
        self.allowances.spec_get(o, p)
    }

    /// The events emitted so far, oldest first.
    pub open spec fn log(&self) -> Seq<Event> {
        self.events@
    }

    /// Creates the ledger: the whole supply is credited to `caller` (the
    /// constructing identity supplied by the host), every other balance and
    /// every allowance is zero, and the one initial `Transfer` event — with no
    /// source account — is logged. Construction has no failure path.
    pub fn new(caller: AccountId, total_supply: Balance) -> (r: Self)
        ensures
            r.wf(),
            r.spec_total_supply() == total_supply,
            r.spec_balance_of(caller) == total_supply,
            forall|a: AccountId| a != caller ==> #[trigger] r.spec_balance_of(a) == 0,
            forall|o: AccountId, p: AccountId| #[trigger] r.spec_allowance(o, p) == 0,
            r.log() =~= seq![transfer_event(None, caller, total_supply)],
    {
        let mut balances = BalanceStore::new();
        balances.set(caller, total_supply);
        let mut events: Vec<Event> = Vec::new();
        events.push(Event::Transfer(Transfer { from: None, to: caller, value: total_supply }));
        Erc20 { total_supply, balances, allowances: AllowanceStore::new(), events }
    }

    /// The fixed total supply: a pure read of the immutable scalar.
    pub fn total_supply(&self) -> (r: Balance)
        ensures
            r == self.spec_total_supply(),
    {
        self.total_supply
    }

    /// The balance of `who`, zero where no tokens were ever credited.
    pub fn balance_of(&self, who: AccountId) -> (r: Balance)
        ensures
            r == self.spec_balance_of(who),
    {
        self.balances.get(who)
    }

    /// The allowance `from` has granted `to`, zero where none was ever set.
    pub fn allowance(&self, from: AccountId, to: AccountId) -> (r: Balance)
        ensures
            r == self.spec_allowance(from, to),
    {
        self.allowances.get(from, to)
    }

    /// The events emitted so far, oldest first, for the host to deliver.
    pub fn events(&self) -> (r: &Vec<Event>)
        ensures
            r@ == self.log(),
    {
        &self.events
    }

    /// Moves `value` tokens from `caller` (the ambient identity supplied by
    /// the host) to `to`. Succeeds exactly when `caller`'s balance covers
    /// `value`; otherwise fails with `BalanceTooLow` and changes nothing.
    pub fn transfer(
        &mut self,
        caller: AccountId,
        to: AccountId,
        value: Balance,
    ) -> (r: Result<(), Error>)
        requires
            old(self).wf(),
        ensures
            final(self).wf(),
            final(self).total_supply == old(self).total_supply,
            final(self).allowances == old(self).allowances,
            r is Ok <==> value <= old(self).spec_balance_of(caller),
            r is Ok ==> balances_moved(*old(self), *final(self), caller, to, value),
            r is Ok ==> final(self).log()
                == old(self).log().push(transfer_event(Some(caller), to, value)),
            r is Err ==> r == Err::<(), Error>(Error::BalanceTooLow)
                && *final(self) == *old(self),
    {
        self.transfer_from_to(caller, to, value)
    }

    /// Delegated transfer: `caller` moves `value` tokens from `from` to `to`
    /// under the allowance `from` granted it. Fails with `AllowanceTooLow`,
    /// changing nothing, when the allowance does not cover `value`.
    ///
    /// The allowance is decremented before the balance sufficiency check, as
    /// the contract below states exactly: when the allowance covers `value`
    /// but `from`'s balance does not, the call fails with `BalanceTooLow`
    /// with the allowance already reduced, though no balance moved. A host
    /// that discards a failed call's effects wholesale rolls that back; one
    /// that commits them must accept the reduced allowance.
    pub fn transfer_from(
        &mut self,
        caller: AccountId,
        from: AccountId,
        to: AccountId,
        value: Balance,
    ) -> (r: Result<(), Error>)
        requires
            old(self).wf(),
        ensures
            final(self).wf(),
            final(self).total_supply == old(self).total_supply,
            r is Ok <==> value <= old(self).spec_allowance(from, caller)
                && value <= old(self).spec_balance_of(from),
            value > old(self).spec_allowance(from, caller)
                ==> r == Err::<(), Error>(Error::AllowanceTooLow) && *final(self) == *old(self),
            value <= old(self).spec_allowance(from, caller)
                ==> final(self).spec_allowance(from, caller)
                    == old(self).spec_allowance(from, caller) - value,
            value <= old(self).spec_allowance(from, caller)
                ==> forall|x: AccountId, y: AccountId| !(x == from && y == caller)
                    ==> #[trigger] final(self).spec_allowance(x, y)
                        == old(self).spec_allowance(x, y),
            value <= old(self).spec_allowance(from, caller)
                && value > old(self).spec_balance_of(from)
                ==> r == Err::<(), Error>(Error::BalanceTooLow)
                    && final(self).balances == old(self).balances
                    && final(self).log() == old(self).log(),
            r is Ok ==> balances_moved(*old(self), *final(self), from, to, value),
            r is Ok ==> final(self).log()
                == old(self).log().push(transfer_event(Some(from), to, value)),
    {
        let current = self.allowances.get(from, caller);
        if current < value {
            return Err(Error::AllowanceTooLow);
        }
        self.allowances.set(from, caller, current - value);
        self.transfer_from_to(from, to, value)
    }

    /// The balance-moving engine shared by `transfer` and `transfer_from`:
    /// checks sufficiency against `from`'s balance before any mutation, then
    /// applies both balance updates and logs the `Transfer` event.
    fn transfer_from_to(
        &mut self,
        from: AccountId,
        to: AccountId,
        value: Balance,
    ) -> (r: Result<(), Error>)
        requires
            old(self).wf(),
        ensures
            final(self).wf(),
            final(self).total_supply == old(self).total_supply,
            final(self).allowances == old(self).allowances,
            r is Ok <==> value <= old(self).spec_balance_of(from),
            r is Ok ==> balances_moved(*old(self), *final(self), from, to, value),
            r is Ok ==> final(self).log()
                == old(self).log().push(transfer_event(Some(from), to, value)),
            r is Err ==> r == Err::<(), Error>(Error::BalanceTooLow)
                && *final(self) == *old(self),
    {
        let balance_from = self.balances.get(from);
        if value > balance_from {
            return Err(Error::BalanceTooLow);
        }
        self.balances.set(from, balance_from - value);
        let balance_to = self.balances.get(to);
        proof {
            lemma_balance_le_sum(self.balances@, to);
        }
        self.balances.set(to, balance_to + value);
        self.events.push(Event::Transfer(Transfer { from: Some(from), to, value }));
        Ok(())
    }

    /// Overwrites — never accumulates — the allowance `caller` grants `to`,
    /// and logs the `Approve` event. Always succeeds; the new allowance may
    /// exceed `caller`'s balance (a legal, inert state).
    pub fn approve(
        &mut self,
        caller: AccountId,
        to: AccountId,
        value: Balance,
    ) -> (r: Result<(), Error>)
        requires
            old(self).wf(),
        ensures
            final(self).wf(),
            r is Ok,
            final(self).spec_allowance(caller, to) == value,
            forall|x: AccountId, y: AccountId| !(x == caller && y == to)
                ==> #[trigger] final(self).spec_allowance(x, y) == old(self).spec_allowance(x, y),
            final(self).balances == old(self).balances,
            final(self).total_supply == old(self).total_supply,
            final(self).log() == old(self).log().push(approve_event(caller, to, value)),
    {
        self.allowances.set(caller, to, value);
        self.events.push(Event::Approve(Approve { from: caller, to, value }));
        Ok(())
    }
}

/// Conservation law: in any well-formed ledger the recorded balances sum to
/// exactly the total supply. `new` establishes well-formedness and every
/// operation's contract preserves it, so this holds in every reachable state.
pub proof fn lemma_supply_conserved(ledger: Erc20)
    requires
        ledger.wf(),
    ensures
        sum_of(ledger.balances@) == ledger.spec_total_supply() as int,
{
}

/// No account ever holds more than the total supply: balances are
/// non-negative by type and sum to the supply, so each one is bounded by it.
/// This is also why crediting a transfer's destination can never overflow.
pub proof fn lemma_balance_bounded(ledger: Erc20, a: AccountId)
    requires
        ledger.wf(),
    ensures
        ledger.spec_balance_of(a) <= ledger.spec_total_supply(),
{
    lemma_balance_le_sum(ledger.balances@, a);
}

/// Sparse-default law: the queries are total — an account no balance entry
/// holds reads as zero, and an (owner, spender) pair no allowance entry holds
/// reads as zero. Absence of a key is never an error.
pub proof fn lemma_untouched_reads_zero(ledger: Erc20, a: AccountId, o: AccountId, p: AccountId)
    requires
        !holds_account(ledger.balances@, a),
        !holds_pair(ledger.allowances@, o, p),
    ensures
        ledger.spec_balance_of(a) == 0,
        ledger.spec_allowance(o, p) == 0,
{
    lemma_balance_absent(ledger.balances@, a);
    lemma_allowance_absent(ledger.allowances@, o, p);
}

} // verus!
