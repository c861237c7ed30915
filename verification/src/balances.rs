use vstd::prelude::*;

use crate::account::AccountId;
use crate::account::Balance;

verus! {

/// No two entries hold the same account.
pub open spec fn distinct_accounts(s: Seq<(AccountId, Balance)>) -> bool {
    forall|i: int, j: int|
        0 <= i < j < s.len() ==> (#[trigger] s[i]).0 != (#[trigger] s[j]).0
}

/// The balance the entries record for `a`: the first entry holding `a`, or
/// zero where none does — absence reads as zero.
pub open spec fn balance_in(s: Seq<(AccountId, Balance)>, a: AccountId) -> Balance
    decreases s.len(),
{
    if s.len() == 0 {
        0
    } else if s[0].0 == a {
        s[0].1
    } else {
        balance_in(s.drop_first(), a)
    }
}

/// Whether some entry holds the account `a`.
pub open spec fn holds_account(s: Seq<(AccountId, Balance)>, a: AccountId) -> bool {
    exists|i: int| 0 <= i < s.len() && (#[trigger] s[i]).0 == a
}

/// The sum of every recorded balance.
pub open spec fn sum_of(s: Seq<(AccountId, Balance)>) -> int
    decreases s.len(),
{
    if s.len() == 0 {
        0
    } else {
        s[0].1 + sum_of(s.drop_first())
    }
}

/// Where the entries before index `i` miss `a` and entry `i` holds it, the
/// recorded balance of `a` is entry `i`'s value.
proof fn lemma_balance_at(s: Seq<(AccountId, Balance)>, a: AccountId, i: int)
    requires
        0 <= i < s.len(),
        s[i].0 == a,
        forall|k: int| 0 <= k < i ==> (#[trigger] s[k]).0 != a,
    ensures
        balance_in(s, a) == s[i].1,
    decreases i,
{
    if i > 0 {
        assert(s[0].0 != a);
        let t = s.drop_first();
        assert forall|k: int| 0 <= k < i - 1 implies (#[trigger] t[k]).0 != a by {
            assert(s[k + 1].0 != a);
        }
        lemma_balance_at(t, a, i - 1);
        assert(t[i - 1] == s[i]);
    }
}

/// An account no entry holds reads as zero.
pub proof fn lemma_balance_absent(s: Seq<(AccountId, Balance)>, a: AccountId)
    requires
        !holds_account(s, a),
    ensures
        balance_in(s, a) == 0,
    decreases s.len(),
{
    if s.len() > 0 {
        assert(s[0].0 != a) by {
            if s[0].0 == a {
                assert(holds_account(s, a));
            }
        }
        let t = s.drop_first();
        assert(!holds_account(t, a)) by {
            if holds_account(t, a) {
                let i = choose|i: int| 0 <= i < t.len() && (#[trigger] t[i]).0 == a;
                assert(s[i + 1].0 == a);
            }
        }
        lemma_balance_absent(t, a);
    }
}

/// Overwriting entry `i` leaves the balances of all other accounts unchanged.
proof fn lemma_balance_update_other(
    s: Seq<(AccountId, Balance)>,
    i: int,
    e: (AccountId, Balance),
    b: AccountId,
)
    requires
        0 <= i < s.len(),
        e.0 == s[i].0,
        b != e.0,
    ensures
        balance_in(s.update(i, e), b) == balance_in(s, b),
    decreases s.len(),
{
    let t = s.update(i, e);
    if i == 0 {
        assert(t.drop_first() =~= s.drop_first());
    } else {
        assert(t[0] == s[0]);
        if s[0].0 != b {
            assert(t.drop_first() =~= s.drop_first().update(i - 1, e));
            lemma_balance_update_other(s.drop_first(), i - 1, e, b);
        }
    }
}

/// Overwriting one entry shifts the sum by the difference of the values.
proof fn lemma_sum_update(s: Seq<(AccountId, Balance)>, i: int, e: (AccountId, Balance))
    requires
        0 <= i < s.len(),
    ensures
        sum_of(s.update(i, e)) == sum_of(s) - s[i].1 + e.1,
    decreases s.len(),
{
    let t = s.update(i, e);
    if i == 0 {
        assert(t.drop_first() =~= s.drop_first());
    } else {
        assert(t[0] == s[0]);
        assert(t.drop_first() =~= s.drop_first().update(i - 1, e));
        lemma_sum_update(s.drop_first(), i - 1, e);
    }
}

/// Appending an entry leaves the balances of all other accounts unchanged.
proof fn lemma_balance_push_other(
    s: Seq<(AccountId, Balance)>,
    e: (AccountId, Balance),
    b: AccountId,
)
    requires
        b != e.0,
    ensures
        balance_in(s.push(e), b) == balance_in(s, b),
    decreases s.len(),
{
    let t = s.push(e);
    if s.len() == 0 {
        assert(t[0] == e);
        assert(t.drop_first() =~= Seq::<(AccountId, Balance)>::empty());
        assert(balance_in(Seq::<(AccountId, Balance)>::empty(), b) == 0);
        assert(balance_in(t, b) == 0);
    } else {
        assert(t[0] == s[0]);
        if s[0].0 != b {
            assert(t.drop_first() =~= s.drop_first().push(e));
            lemma_balance_push_other(s.drop_first(), e, b);
        }
    }
}

/// Appending an entry adds its value to the sum.
proof fn lemma_sum_push(s: Seq<(AccountId, Balance)>, e: (AccountId, Balance))
    ensures
        sum_of(s.push(e)) == sum_of(s) + e.1,
    decreases s.len(),
{
    let t = s.push(e);
    if s.len() == 0 {
        assert(t[0] == e);
        assert(t.drop_first() =~= Seq::<(AccountId, Balance)>::empty());
        assert(sum_of(Seq::<(AccountId, Balance)>::empty()) == 0);
        assert(sum_of(t) == e.1 + 0);
    } else {
        assert(t[0] == s[0]);
        assert(t.drop_first() =~= s.drop_first().push(e));
        lemma_sum_push(s.drop_first(), e);
    }
}

/// Every balance is non-negative, so no single balance exceeds the sum.
pub proof fn lemma_balance_le_sum(s: Seq<(AccountId, Balance)>, a: AccountId)
    ensures
        0 <= sum_of(s),
        balance_in(s, a) <= sum_of(s),
    decreases s.len(),
{
    if s.len() > 0 {
        lemma_balance_le_sum(s.drop_first(), a);
    }
}

/// Overwriting the entry that holds `a` with value `v`: `a` now reads `v`,
/// everything else is untouched, and the sum shifts accordingly.
proof fn lemma_update_entry(s: Seq<(AccountId, Balance)>, i: int, a: AccountId, v: Balance)
    requires
        0 <= i < s.len(),
        s[i].0 == a,
        forall|k: int| 0 <= k < i ==> (#[trigger] s[k]).0 != a,
        distinct_accounts(s),
    ensures
        distinct_accounts(s.update(i, (a, v))),
        balance_in(s.update(i, (a, v)), a) == v,
        forall|b: AccountId| b != a ==> balance_in(s.update(i, (a, v)), b) == balance_in(s, b),
        sum_of(s.update(i, (a, v))) == sum_of(s) - balance_in(s, a) + v,
{
    let t = s.update(i, (a, v));
    assert forall|p: int, q: int|
        0 <= p < q < t.len() implies (#[trigger] t[p]).0 != (#[trigger] t[q]).0 by {
        assert(s[p].0 != s[q].0);
    }
    assert forall|k: int| 0 <= k < i implies (#[trigger] t[k]).0 != a by {
        assert(s[k].0 != a);
    }
    lemma_balance_at(t, a, i);
    assert forall|b: AccountId| b != a implies balance_in(t, b) == balance_in(s, b) by {
        lemma_balance_update_other(s, i, (a, v), b);
    }
    lemma_sum_update(s, i, (a, v));
    lemma_balance_at(s, a, i);
}

/// Appending an entry for an account no entry holds: the account now reads
/// `v`, everything else is untouched, and the sum grows by `v`.
proof fn lemma_push_entry(s: Seq<(AccountId, Balance)>, a: AccountId, v: Balance)
    requires
        forall|k: int| 0 <= k < s.len() ==> (#[trigger] s[k]).0 != a,
        distinct_accounts(s),
    ensures
        distinct_accounts(s.push((a, v))),
        balance_in(s.push((a, v)), a) == v,
        forall|b: AccountId| b != a ==> balance_in(s.push((a, v)), b) == balance_in(s, b),
        sum_of(s.push((a, v))) == sum_of(s) - balance_in(s, a) + v,
{
    let t = s.push((a, v));
    assert forall|p: int, q: int|
        0 <= p < q < t.len() implies (#[trigger] t[p]).0 != (#[trigger] t[q]).0 by {
        if q == s.len() {
            assert(s[p].0 != a);
        } else {
            assert(s[p].0 != s[q].0);
        }
    }
    assert forall|k: int| 0 <= k < s.len() implies (#[trigger] t[k]).0 != a by {
        assert(s[k].0 != a);
    }
    lemma_balance_at(t, a, s.len() as int);
    assert forall|b: AccountId| b != a implies balance_in(t, b) == balance_in(s, b) by {
        lemma_balance_push_other(s, (a, v), b);
    }
    lemma_sum_push(s, (a, v));
    assert(!holds_account(s, a)) by {
        if holds_account(s, a) {
            let i = choose|i: int| 0 <= i < s.len() && (#[trigger] s[i]).0 == a;
            assert(s[i].0 != a);
        }
    }
    lemma_balance_absent(s, a);
}

/// A sparse account-to-balance mapping: entries are (account, balance) pairs,
/// at most one per account, and a missing account reads as balance zero.
pub struct BalanceStore {
    entries: Vec<(AccountId, Balance)>,
}

impl View for BalanceStore {
    type V = Seq<(AccountId, Balance)>;

    closed spec fn view(&self) -> Seq<(AccountId, Balance)> {
        self.entries@
    }
}

impl BalanceStore {
    /// Well-formed: no account appears in two entries.
    pub open spec fn wf(&self) -> bool {
        distinct_accounts(self@)
    }

    /// The balance recorded for `a`; accounts without an entry hold zero.
    pub open spec fn spec_get(&self, a: AccountId) -> Balance {
        balance_in(self@, a)
    }

    /// The sum of every recorded balance.
    pub open spec fn total(&self) -> int {
        sum_of(self@)
    }

    /// An empty store: every account reads zero and the sum is zero.
    pub fn new() -> (r: Self)
        ensures
            r.wf(),
            r.total() == 0,
            r@ == Seq::<(AccountId, Balance)>::empty(),
            forall|a: AccountId| #[trigger] r.spec_get(a) == 0,
    {
        BalanceStore { entries: Vec::new() }
    }

    /// The index of the entry holding `a`, if one does.
    fn index_of(&self, a: AccountId) -> (r: Option<usize>)
        ensures
            match r {
                Some(i) => i < self@.len() && self@[i as int].0 == a && forall|k: int|
                    0 <= k < i ==> (#[trigger] self@[k]).0 != a,
                None => forall|k: int| 0 <= k < self@.len() ==> (#[trigger] self@[k]).0 != a,
            },
    {
        let n = self.entries.len();
        let mut i: usize = 0;
        while i < n
            invariant
                n == self.entries.len(),
                i <= n,
                forall|k: int| 0 <= k < i ==> (#[trigger] self.entries@[k]).0 != a,
            decreases n - i,
        {
            if self.entries[i].0 == a {
                return Some(i);
            }
            i = i + 1;
        }
        None
    }

    /// Returns the stored balance, or zero where no entry holds `a`.
    pub fn get(&self, a: AccountId) -> (r: Balance)
        ensures
            r == self.spec_get(a),
    {
        match self.index_of(a) {
            Some(i) => {
                proof {
                    lemma_balance_at(self@, a, i as int);
                }
                self.entries[i].1
            }
            None => {
                proof {
                    lemma_balance_absent(self@, a);
                }
                0
            }
        }
    }

    /// Overwrites the balance recorded for `a` with `v`. All other accounts
    /// are untouched and the sum shifts by the difference.
    pub fn set(&mut self, a: AccountId, v: Balance)
        requires
            old(self).wf(),
        ensures
            final(self).wf(),
            final(self).spec_get(a) == v,
            forall|b: AccountId| b != a ==> #[trigger] final(self).spec_get(b)
                == old(self).spec_get(b),
            final(self).total() == old(self).total() - old(self).spec_get(a) + v,
    {
        match self.index_of(a) {
            Some(i) => {
                proof {
                    lemma_update_entry(self@, i as int, a, v);
                }
                self.entries[i] = (a, v);
            }
            None => {
                proof {
                    lemma_push_entry(self@, a, v);
                }
                self.entries.push((a, v));
            }
        }
    }
}

} // verus!
