use vstd::prelude::*;

use crate::account::AccountId;
use crate::account::Balance;

verus! {

/// No two entries hold the same (owner, spender) pair.
pub open spec fn distinct_pairs(s: Seq<(AccountId, AccountId, Balance)>) -> bool {
    forall|i: int, j: int|
        0 <= i < j < s.len() ==> !((#[trigger] s[i]).0 == (#[trigger] s[j]).0 && s[i].1 == s[j].1)
}

/// The allowance the entries record for (owner `o`, spender `p`): the first
/// entry holding the pair, or zero where none does — absence reads as zero.
pub open spec fn allowance_in(
    s: Seq<(AccountId, AccountId, Balance)>,
    o: AccountId,
    p: AccountId,
) -> Balance
    decreases s.len(),
{
    if s.len() == 0 {
        0
    } else if s[0].0 == o && s[0].1 == p {
        s[0].2
    } else {
        allowance_in(s.drop_first(), o, p)
    }
}

/// Whether some entry holds the pair (owner `o`, spender `p`).
pub open spec fn holds_pair(
    s: Seq<(AccountId, AccountId, Balance)>,
    o: AccountId,
    p: AccountId,
) -> bool {
    exists|i: int| 0 <= i < s.len() && (#[trigger] s[i]).0 == o && s[i].1 == p
}

/// Where the entries before index `i` miss the pair and entry `i` holds it,
/// the recorded allowance is entry `i`'s value.
proof fn lemma_allowance_at(s: Seq<(AccountId, AccountId, Balance)>, o: AccountId, p: AccountId, i: int)
    requires
        0 <= i < s.len(),
        s[i].0 == o && s[i].1 == p,
        forall|k: int| 0 <= k < i ==> !((#[trigger] s[k]).0 == o && s[k].1 == p),
    ensures
        allowance_in(s, o, p) == s[i].2,
    decreases i,
{
    if i > 0 {
        assert(!(s[0].0 == o && s[0].1 == p));
        let t = s.drop_first();
        assert forall|k: int| 0 <= k < i - 1 implies !((#[trigger] t[k]).0 == o && t[k].1 == p) by {
            assert(!(s[k + 1].0 == o && s[k + 1].1 == p));
        }
        lemma_allowance_at(t, o, p, i - 1);
        assert(t[i - 1] == s[i]);
    }
}

/// A pair no entry holds reads as zero.
pub proof fn lemma_allowance_absent(s: Seq<(AccountId, AccountId, Balance)>, o: AccountId, p: AccountId)
    requires
        !holds_pair(s, o, p),
    ensures
        allowance_in(s, o, p) == 0,
    decreases s.len(),
{
    if s.len() > 0 {
        assert(!(s[0].0 == o && s[0].1 == p)) by {
            if s[0].0 == o && s[0].1 == p {
                assert(holds_pair(s, o, p));
            }
        }
        let t = s.drop_first();
        assert(!holds_pair(t, o, p)) by {
            if holds_pair(t, o, p) {
                let i = choose|i: int| 0 <= i < t.len() && (#[trigger] t[i]).0 == o && t[i].1 == p;
                assert(s[i + 1].0 == o && s[i + 1].1 == p);
            }
        }
        lemma_allowance_absent(t, o, p);
    }
}

/// Overwriting entry `i` leaves the allowances of all other pairs unchanged.
proof fn lemma_allowance_update_other(
    s: Seq<(AccountId, AccountId, Balance)>,
    i: int,
    e: (AccountId, AccountId, Balance),
    o: AccountId,
    p: AccountId,
)
    requires
        0 <= i < s.len(),
        e.0 == s[i].0 && e.1 == s[i].1,
        !(o == e.0 && p == e.1),
    ensures
        allowance_in(s.update(i, e), o, p) == allowance_in(s, o, p),
    decreases s.len(),
{
    let t = s.update(i, e);
    if i == 0 {
        assert(t.drop_first() =~= s.drop_first());
    } else {
        assert(t[0] == s[0]);
        if !(s[0].0 == o && s[0].1 == p) {
            assert(t.drop_first() =~= s.drop_first().update(i - 1, e));
            lemma_allowance_update_other(s.drop_first(), i - 1, e, o, p);
        }
    }
}

/// Appending an entry leaves the allowances of all other pairs unchanged.
proof fn lemma_allowance_push_other(
    s: Seq<(AccountId, AccountId, Balance)>,
    e: (AccountId, AccountId, Balance),
    o: AccountId,
    p: AccountId,
)
    requires
        !(o == e.0 && p == e.1),
    ensures
        allowance_in(s.push(e), o, p) == allowance_in(s, o, p),
    decreases s.len(),
{
    let t = s.push(e);
    if s.len() == 0 {
        assert(t[0] == e);
        assert(t.drop_first() =~= Seq::<(AccountId, AccountId, Balance)>::empty());
        assert(allowance_in(Seq::<(AccountId, AccountId, Balance)>::empty(), o, p) == 0);
        assert(allowance_in(t, o, p) == 0);
    } else {
        assert(t[0] == s[0]);
        if !(s[0].0 == o && s[0].1 == p) {
            assert(t.drop_first() =~= s.drop_first().push(e));
            lemma_allowance_push_other(s.drop_first(), e, o, p);
        }
    }
}

/// Overwriting the entry that holds (`o`, `p`) with value `v`: the pair now
/// reads `v` and every other pair is untouched.
proof fn lemma_update_pair(
    s: Seq<(AccountId, AccountId, Balance)>,
    i: int,
    o: AccountId,
    p: AccountId,
    v: Balance,
)
    requires
        0 <= i < s.len(),
        s[i].0 == o && s[i].1 == p,
        forall|k: int| 0 <= k < i ==> !((#[trigger] s[k]).0 == o && s[k].1 == p),
        distinct_pairs(s),
    ensures
        distinct_pairs(s.update(i, (o, p, v))),
        allowance_in(s.update(i, (o, p, v)), o, p) == v,
        forall|x: AccountId, y: AccountId| !(x == o && y == p)
            ==> allowance_in(s.update(i, (o, p, v)), x, y) == allowance_in(s, x, y),
{
    let t = s.update(i, (o, p, v));
    assert forall|a: int, b: int|
        0 <= a < b < t.len() implies !((#[trigger] t[a]).0 == (#[trigger] t[b]).0
        && t[a].1 == t[b].1) by {
        assert(!(s[a].0 == s[b].0 && s[a].1 == s[b].1));
    }
    assert forall|k: int| 0 <= k < i implies !((#[trigger] t[k]).0 == o && t[k].1 == p) by {
        assert(!(s[k].0 == o && s[k].1 == p));
    }
    lemma_allowance_at(t, o, p, i);
    assert forall|x: AccountId, y: AccountId| !(x == o && y == p)
        implies allowance_in(t, x, y) == allowance_in(s, x, y) by {
        lemma_allowance_update_other(s, i, (o, p, v), x, y);
    }
}

/// Appending an entry for a pair no entry holds: the pair now reads `v` and
/// every other pair is untouched.
proof fn lemma_push_pair(
    s: Seq<(AccountId, AccountId, Balance)>,
    o: AccountId,
    p: AccountId,
    v: Balance,
)
    requires
        forall|k: int| 0 <= k < s.len() ==> !((#[trigger] s[k]).0 == o && s[k].1 == p),
        distinct_pairs(s),
    ensures
        distinct_pairs(s.push((o, p, v))),
        allowance_in(s.push((o, p, v)), o, p) == v,
        forall|x: AccountId, y: AccountId| !(x == o && y == p)
            ==> allowance_in(s.push((o, p, v)), x, y) == allowance_in(s, x, y),
{
    let t = s.push((o, p, v));
    assert forall|a: int, b: int|
        0 <= a < b < t.len() implies !((#[trigger] t[a]).0 == (#[trigger] t[b]).0
        && t[a].1 == t[b].1) by {
        if b == s.len() {
            assert(!(s[a].0 == o && s[a].1 == p));
        } else {
            assert(!(s[a].0 == s[b].0 && s[a].1 == s[b].1));
        }
    }
    assert forall|k: int| 0 <= k < s.len() implies !((#[trigger] t[k]).0 == o && t[k].1 == p) by {
        assert(!(s[k].0 == o && s[k].1 == p));
    }
    lemma_allowance_at(t, o, p, s.len() as int);
    assert forall|x: AccountId, y: AccountId| !(x == o && y == p)
        implies allowance_in(t, x, y) == allowance_in(s, x, y) by {
        lemma_allowance_push_other(s, (o, p, v), x, y);
    }
}

/// A sparse (owner, spender)-to-allowance mapping: entries are
/// (owner, spender, allowance) triples, at most one per pair, and a missing
/// pair reads as allowance zero.
pub struct AllowanceStore {
    entries: Vec<(AccountId, AccountId, Balance)>,
}

impl View for AllowanceStore {
    type V = Seq<(AccountId, AccountId, Balance)>;

    closed spec fn view(&self) -> Seq<(AccountId, AccountId, Balance)> {
        self.entries@
    }
}

impl AllowanceStore {
    /// Well-formed: no (owner, spender) pair appears in two entries.
    pub open spec fn wf(&self) -> bool {
        distinct_pairs(self@)
    }

    /// The allowance recorded for (`o`, `p`); pairs without an entry hold zero.
    pub open spec fn spec_get(&self, o: AccountId, p: AccountId) -> Balance {
        allowance_in(self@, o, p)
    }

    /// An empty store: every pair reads zero.
    pub fn new() -> (r: Self)
        ensures
            r.wf(),
            r@ == Seq::<(AccountId, AccountId, Balance)>::empty(),
            forall|o: AccountId, p: AccountId| #[trigger] r.spec_get(o, p) == 0,
    {
        AllowanceStore { entries: Vec::new() }
    }

    /// The index of the entry holding (`o`, `p`), if one does.
    fn index_of(&self, o: AccountId, p: AccountId) -> (r: Option<usize>)
        ensures
            match r {
                Some(i) => i < self@.len() && self@[i as int].0 == o && self@[i as int].1 == p
                    && forall|k: int| 0 <= k < i ==> !((#[trigger] self@[k]).0 == o
                        && self@[k].1 == p),
                None => forall|k: int| 0 <= k < self@.len() ==> !((#[trigger] self@[k]).0 == o
                    && self@[k].1 == p),
            },
    {
        let n = self.entries.len();
        let mut i: usize = 0;
        while i < n
            invariant
                n == self.entries.len(),
                i <= n,
                forall|k: int| 0 <= k < i ==> !((#[trigger] self.entries@[k]).0 == o
                    && self.entries@[k].1 == p),
            decreases n - i,
        {
            if self.entries[i].0 == o && self.entries[i].1 == p {
                return Some(i);
            }
            i = i + 1;
        }
        None
    }

    /// Returns the stored allowance, or zero where no entry holds the pair.
    pub fn get(&self, o: AccountId, p: AccountId) -> (r: Balance)
        ensures
            r == self.spec_get(o, p),
    {
        match self.index_of(o, p) {
            Some(i) => {
                proof {
                    lemma_allowance_at(self@, o, p, i as int);
                }
                self.entries[i].2
            }
            None => {
                proof {
                    lemma_allowance_absent(self@, o, p);
                }
                0
            }
        }
    }

    /// Overwrites the allowance recorded for (`o`, `p`) with `v`. All other
    /// pairs are untouched.
    pub fn set(&mut self, o: AccountId, p: AccountId, v: Balance)
        requires
            old(self).wf(),
        ensures
            final(self).wf(),
            final(self).spec_get(o, p) == v,
            forall|x: AccountId, y: AccountId| !(x == o && y == p)
                ==> #[trigger] final(self).spec_get(x, y) == old(self).spec_get(x, y),
    {
        match self.index_of(o, p) {
            Some(i) => {
                proof {
                    lemma_update_pair(self@, i as int, o, p, v);
                }
                self.entries[i] = (o, p, v);
            }
            None => {
                proof {
                    lemma_push_pair(self@, o, p, v);
                }
                self.entries.push((o, p, v));
            }
        }
    }
}

} // verus!
