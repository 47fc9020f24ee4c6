use vstd::prelude::*;

use crate::account::AccountId;

verus! {

/// Per-(owner, spender) allowance table.
///
/// Each entry `(owner, spender, amount)` records how much `spender` may move
/// out of `owner`'s balance. The entries carry pairwise-distinct
/// (owner, spender) pairs; a pair without an entry has allowance 0.
pub struct Allowances {
    entries: Vec<(AccountId, AccountId, u128)>,
}

/// Whether entry `e` is keyed by the pair `(o, s)`.
spec fn keyed(e: (AccountId, AccountId, u128), o: AccountId, s: AccountId) -> bool {
    e.0 == o && e.1 == s
}

/// Allowance recorded for `(o, s)`: the amount of the first entry keyed by
/// that pair, or 0 when there is none.
spec fn seq_get(t: Seq<(AccountId, AccountId, u128)>, o: AccountId, s: AccountId) -> u128
    decreases t.len(),
{
    if t.len() == 0 {
        0
    } else if keyed(t[0], o, s) {
        t[0].2
    } else {
        seq_get(t.drop_first(), o, s)
    }
}

/// None of the first `i` entries of `t` is keyed by `(o, s)`.
spec fn absent_prefix(t: Seq<(AccountId, AccountId, u128)>, o: AccountId, s: AccountId, i: int) -> bool {
    forall|j: int| 0 <= j < i ==> !keyed(t[j], o, s)
}

/// When the first entry keyed by `(o, s)` sits at index `i`, the lookup
/// returns that entry's amount.
proof fn lemma_get_found(t: Seq<(AccountId, AccountId, u128)>, o: AccountId, s: AccountId, i: int)
    requires
        0 <= i < t.len(),
        absent_prefix(t, o, s, i),
        keyed(t[i], o, s),
    ensures
        seq_get(t, o, s) == t[i].2,
    decreases i,
{
    if i > 0 {
        assert(!keyed(t[0], o, s));
        assert(forall|j: int| 0 <= j < i - 1 ==> t.drop_first()[j] == t[j + 1]);
        lemma_get_found(t.drop_first(), o, s, i - 1);
    }
}

/// A pair with no entry at all has allowance 0.
proof fn lemma_get_absent(t: Seq<(AccountId, AccountId, u128)>, o: AccountId, s: AccountId)
    requires
        absent_prefix(t, o, s, t.len() as int),
    ensures
        seq_get(t, o, s) == 0,
    decreases t.len(),
{
    if t.len() > 0 {
        assert(forall|j: int| 0 <= j < t.len() - 1 ==> t.drop_first()[j] == t[j + 1]);
        lemma_get_absent(t.drop_first(), o, s);
    }
}

/// Overwriting an entry not keyed by `(o, s)` with another entry not keyed
/// by `(o, s)` leaves that pair's lookup unchanged.
proof fn lemma_get_update_other(
    t: Seq<(AccountId, AccountId, u128)>,
    i: int,
    e: (AccountId, AccountId, u128),
    o: AccountId,
    s: AccountId,
)
    requires
        0 <= i < t.len(),
        !keyed(t[i], o, s),
        !keyed(e, o, s),
    ensures
        seq_get(t.update(i, e), o, s) == seq_get(t, o, s),
    decreases i,
{
    let u = t.update(i, e);
    if i == 0 {
        assert(u.drop_first() =~= t.drop_first());
    } else {
        assert(u.drop_first() =~= t.drop_first().update(i - 1, e));
        lemma_get_update_other(t.drop_first(), i - 1, e, o, s);
    }
}

/// Appending an entry keyed by some other pair leaves `(o, s)`'s lookup
/// unchanged.
proof fn lemma_get_push_other(
    t: Seq<(AccountId, AccountId, u128)>,
    e: (AccountId, AccountId, u128),
    o: AccountId,
    s: AccountId,
)
    requires
        !keyed(e, o, s),
    ensures
        seq_get(t.push(e), o, s) == seq_get(t, o, s),
    decreases t.len(),
{
    let u = t.push(e);
    assert(u[t.len() as int] == e);
    if t.len() == 0 {
        assert(u.drop_first() =~= Seq::<(AccountId, AccountId, u128)>::empty());
        assert(seq_get(u.drop_first(), o, s) == 0);
        assert(seq_get(u, o, s) == seq_get(u.drop_first(), o, s));
    } else {
        assert(u[0] == t[0]);
        assert(u.drop_first() =~= t.drop_first().push(e));
        lemma_get_push_other(t.drop_first(), e, o, s);
        assert(seq_get(u, o, s) == if keyed(u[0], o, s) { u[0].2 } else { seq_get(u.drop_first(), o, s) });
        assert(seq_get(t, o, s) == if keyed(t[0], o, s) { t[0].2 } else { seq_get(t.drop_first(), o, s) });
    }
}

impl Allowances {
    /// The table never holds two entries for one (owner, spender) pair.
    pub closed spec fn wf(self) -> bool {
        forall|i: int, j: int|
            0 <= i < j < self.entries@.len()
                ==> !(self.entries@[i].0 == self.entries@[j].0
                    && self.entries@[i].1 == self.entries@[j].1)
    }

    /// The allowance `spender` holds from `owner`; an absent pair has 0.
    pub closed spec fn spec_get(self, owner: AccountId, spender: AccountId) -> u128 {
        seq_get(self.entries@, owner, spender)
    }

    /// An empty table: every pair has allowance 0.
    pub fn new() -> (r: Self)
        ensures
            r.wf(),
            forall|o: AccountId, s: AccountId| r.spec_get(o, s) == 0,
    {
        Allowances { entries: Vec::new() }
    }

    /// Index of the entry keyed by `(owner, spender)`, if there is one.
    fn find(&self, owner: AccountId, spender: AccountId) -> (r: Option<usize>)
        ensures
            match r {
                Some(i) => {
                    &&& i < self.entries@.len()
                    &&& keyed(self.entries@[i as int], owner, spender)
                    &&& absent_prefix(self.entries@, owner, spender, i as int)
                },
                None => absent_prefix(self.entries@, owner, spender, self.entries@.len() as int),
            },
    {
        let n = self.entries.len();
        let mut i: usize = 0;
        while i < n
            invariant
                n == self.entries@.len(),
                i <= n,
                absent_prefix(self.entries@, owner, spender, i as int),
            decreases n - i,
        {
            let e = self.entries[i];
            if e.0 == owner && e.1 == spender {
                return Some(i);
            }
            i = i + 1;
        }
        None
    }

    /// The allowance of `(owner, spender)`.
    pub fn get(&self, owner: AccountId, spender: AccountId) -> (r: u128)
        ensures
            r == self.spec_get(owner, spender),
    {
        match self.find(owner, spender) {
            Some(i) => {
                proof {
                    lemma_get_found(self.entries@, owner, spender, i as int);
                }
                self.entries[i].2
            }
            None => {
                proof {
                    lemma_get_absent(self.entries@, owner, spender);
                }
                0
            }
        }
    }

    /// Sets the allowance of `(owner, spender)` to `v`, overwriting any
    /// prior value and leaving every other pair untouched.
    pub fn set(&mut self, owner: AccountId, spender: AccountId, v: u128)
        requires
            old(self).wf(),
        ensures
            final(self).wf(),
            final(self).spec_get(owner, spender) == v,
            forall|o: AccountId, s: AccountId|
                !(o == owner && s == spender)
                    ==> final(self).spec_get(o, s) == old(self).spec_get(o, s),
    {
        let ghost t0 = self.entries@;
        match self.find(owner, spender) {
            Some(i) => {
                self.entries[i] = (owner, spender, v);
                proof {
                    lemma_get_found(self.entries@, owner, spender, i as int);
                    assert forall|o: AccountId, s: AccountId| !(o == owner && s == spender) implies
                        seq_get(self.entries@, o, s) == seq_get(t0, o, s) by {
                        lemma_get_update_other(t0, i as int, (owner, spender, v), o, s);
                    }
                    assert forall|p: int, q: int|
                        0 <= p < q < self.entries@.len() implies
                        !(self.entries@[p].0 == self.entries@[q].0
                            && self.entries@[p].1 == self.entries@[q].1) by {
                        assert(t0[p].0 == self.entries@[p].0 && t0[p].1 == self.entries@[p].1);
                        assert(t0[q].0 == self.entries@[q].0 && t0[q].1 == self.entries@[q].1);
                    }
                }
            }
            None => {
                self.entries.push((owner, spender, v));
                proof {
                    lemma_get_found(self.entries@, owner, spender, t0.len() as int);
                    assert forall|o: AccountId, s: AccountId| !(o == owner && s == spender) implies
                        seq_get(self.entries@, o, s) == seq_get(t0, o, s) by {
                        lemma_get_push_other(t0, (owner, spender, v), o, s);
                    }
                    assert forall|p: int, q: int|
                        0 <= p < q < self.entries@.len() implies
                        !(self.entries@[p].0 == self.entries@[q].0
                            && self.entries@[p].1 == self.entries@[q].1) by {
                        if q < t0.len() {
                            assert(t0[p] == self.entries@[p]);
                            assert(t0[q] == self.entries@[q]);
                        } else {
                            assert(self.entries@[p] == t0[p]);
                            assert(self.entries@[q] == (owner, spender, v));
                        }
                    }
                }
            }
        }
    }
}

} // verus!
