use vstd::prelude::*;

use crate::account::AccountId;

verus! {

/// Per-account balance table.
///
/// The table is a list of `(account, amount)` entries with pairwise-distinct
/// accounts; an account without an entry holds 0. Keeping the entries
/// duplicate-free makes the sum of the recorded amounts the sum of the
/// balances of all accounts, which is what the ledger's conservation
/// invariant speaks about.
pub struct Balances {
    entries: Vec<(AccountId, u128)>,
}

/// Amount held by `a` in `s`: the value of the first entry keyed by `a`,
/// or 0 when there is none.
spec fn seq_get(s: Seq<(AccountId, u128)>, a: AccountId) -> u128
    decreases s.len(),
{
    if s.len() == 0 {
        0
    } else if s[0].0 == a {
        s[0].1
    } else {
        seq_get(s.drop_first(), a)
    }
}

/// Sum of all amounts recorded in `s`.
spec fn seq_sum(s: Seq<(AccountId, u128)>) -> int
    decreases s.len(),
{
    if s.len() == 0 {
        0
    } else {
        s[0].1 + seq_sum(s.drop_first())
    }
}

/// None of the first `i` entries of `s` is keyed by `a`.
spec fn absent_prefix(s: Seq<(AccountId, u128)>, a: AccountId, i: int) -> bool {
    forall|j: int| 0 <= j < i ==> s[j].0 != a
}

/// When the first entry keyed by `a` sits at index `i`, the lookup returns
/// that entry's amount.
proof fn lemma_get_found(s: Seq<(AccountId, u128)>, a: AccountId, i: int)
    requires
        0 <= i < s.len(),
        absent_prefix(s, a, i),
        s[i].0 == a,
    ensures
        seq_get(s, a) == s[i].1,
    decreases i,
{
    if i > 0 {
        assert(s[0].0 != a);
        assert(forall|j: int| 0 <= j < i - 1 ==> s.drop_first()[j] == s[j + 1]);
        lemma_get_found(s.drop_first(), a, i - 1);
    }
}

/// An account with no entry at all holds 0.
proof fn lemma_get_absent(s: Seq<(AccountId, u128)>, a: AccountId)
    requires
        absent_prefix(s, a, s.len() as int),
    ensures
        seq_get(s, a) == 0,
    decreases s.len(),
{
    if s.len() > 0 {
        assert(forall|j: int| 0 <= j < s.len() - 1 ==> s.drop_first()[j] == s[j + 1]);
        lemma_get_absent(s.drop_first(), a);
    }
}

/// Overwriting the amount of entry `i` shifts the sum by the difference.
proof fn lemma_sum_update(s: Seq<(AccountId, u128)>, i: int, e: (AccountId, u128))
    requires
        0 <= i < s.len(),
    ensures
        seq_sum(s.update(i, e)) == seq_sum(s) - s[i].1 + e.1,
    decreases i,
{
    let t = s.update(i, e);
    if i == 0 {
        assert(t.drop_first() =~= s.drop_first());
    } else {
        assert(t.drop_first() =~= s.drop_first().update(i - 1, e));
        lemma_sum_update(s.drop_first(), i - 1, e);
    }
}

/// Overwriting an entry not keyed by `b` with another entry not keyed by `b`
/// leaves `b`'s lookup unchanged.
proof fn lemma_get_update_other(s: Seq<(AccountId, u128)>, i: int, e: (AccountId, u128), b: AccountId)
    requires
        0 <= i < s.len(),
        s[i].0 != b,
        e.0 != b,
    ensures
        seq_get(s.update(i, e), b) == seq_get(s, b),
    decreases i,
{
    let t = s.update(i, e);
    if i == 0 {
        assert(t.drop_first() =~= s.drop_first());
    } else {
        assert(t.drop_first() =~= s.drop_first().update(i - 1, e));
        lemma_get_update_other(s.drop_first(), i - 1, e, b);
    }
}

/// Appending an entry adds its amount to the sum.
proof fn lemma_sum_push(s: Seq<(AccountId, u128)>, e: (AccountId, u128))
    ensures
        seq_sum(s.push(e)) == seq_sum(s) + e.1,
    decreases s.len(),
{
    let t = s.push(e);
    assert(t[s.len() as int] == e);
    if s.len() == 0 {
        assert(t.drop_first() =~= Seq::<(AccountId, u128)>::empty());
        assert(seq_sum(t.drop_first()) == 0);
        assert(seq_sum(t) == t[0].1 + seq_sum(t.drop_first()));
    } else {
        assert(t[0] == s[0]);
        assert(t.drop_first() =~= s.drop_first().push(e));
        lemma_sum_push(s.drop_first(), e);
        assert(seq_sum(t) == t[0].1 + seq_sum(t.drop_first()));
        assert(seq_sum(s) == s[0].1 + seq_sum(s.drop_first()));
    }
}

/// Appending an entry keyed by some other account leaves `b`'s lookup
/// unchanged.
proof fn lemma_get_push_other(s: Seq<(AccountId, u128)>, e: (AccountId, u128), b: AccountId)
    requires
        e.0 != b,
    ensures
        seq_get(s.push(e), b) == seq_get(s, b),
    decreases s.len(),
{
    let t = s.push(e);
    assert(t[s.len() as int] == e);
    if s.len() == 0 {
        assert(t.drop_first() =~= Seq::<(AccountId, u128)>::empty());
        assert(seq_get(t.drop_first(), b) == 0);
        assert(seq_get(t, b) == seq_get(t.drop_first(), b));
    } else {
        assert(t[0] == s[0]);
        assert(t.drop_first() =~= s.drop_first().push(e));
        lemma_get_push_other(s.drop_first(), e, b);
        assert(seq_get(t, b) == if t[0].0 == b { t[0].1 } else { seq_get(t.drop_first(), b) });
        assert(seq_get(s, b) == if s[0].0 == b { s[0].1 } else { seq_get(s.drop_first(), b) });
    }
}

/// The sum of unsigned amounts is never negative.
proof fn lemma_sum_nonneg(s: Seq<(AccountId, u128)>)
    ensures
        seq_sum(s) >= 0,
    decreases s.len(),
{
    if s.len() > 0 {
        lemma_sum_nonneg(s.drop_first());
    }
}

/// A single lookup never exceeds the sum of all amounts.
proof fn lemma_get_le_sum(s: Seq<(AccountId, u128)>, a: AccountId)
    ensures
        0 <= seq_get(s, a) <= seq_sum(s),
    decreases s.len(),
{
    if s.len() > 0 {
        lemma_get_le_sum(s.drop_first(), a);
        if s[0].0 == a {
            lemma_sum_nonneg(s.drop_first());
        }
    }
}

/// Two distinct accounts together never hold more than the sum of all
/// amounts.
proof fn lemma_sum_two(s: Seq<(AccountId, u128)>, a: AccountId, b: AccountId)
    requires
        a != b,
    ensures
        seq_get(s, a) + seq_get(s, b) <= seq_sum(s),
    decreases s.len(),
{
    if s.len() > 0 {
        lemma_sum_two(s.drop_first(), a, b);
        if s[0].0 == a || s[0].0 == b {
            let other = if s[0].0 == a { b } else { a };
            lemma_get_le_sum(s.drop_first(), other);
        }
    }
}

impl Balances {
    /// The table never holds two entries for one account.
    pub closed spec fn wf(self) -> bool {
        forall|i: int, j: int|
            0 <= i < j < self.entries@.len() ==> self.entries@[i].0 != self.entries@[j].0
    }

    /// The amount held by `a`; an account without an entry holds 0.
    pub closed spec fn spec_get(self, a: AccountId) -> u128 {
        seq_get(self.entries@, a)
    }

    /// The sum of all recorded amounts, that is, of every account's balance.
    pub closed spec fn total(self) -> int {
        seq_sum(self.entries@)
    }

    /// An empty table: every account holds 0.
    pub fn new() -> (r: Self)
        ensures
            r.wf(),
            r.total() == 0,
            forall|a: AccountId| r.spec_get(a) == 0,
    {
        Balances { entries: Vec::new() }
    }

    /// Index of the entry keyed by `a`, if there is one.
    fn find(&self, a: AccountId) -> (r: Option<usize>)
        ensures
            match r {
                Some(i) => {
                    &&& i < self.entries@.len()
                    &&& self.entries@[i as int].0 == a
                    &&& absent_prefix(self.entries@, a, i as int)
                },
                None => absent_prefix(self.entries@, a, self.entries@.len() as int),
            },
    {
        let n = self.entries.len();
        let mut i: usize = 0;
        while i < n
            invariant
                n == self.entries@.len(),
                i <= n,
                absent_prefix(self.entries@, a, i as int),
            decreases n - i,
        {
            let e = self.entries[i];
            if e.0 == a {
                return Some(i);
            }
            i = i + 1;
        }
        None
    }

    /// The balance of `a`.
    pub fn get(&self, a: AccountId) -> (r: u128)
        ensures
            r == self.spec_get(a),
    {
        match self.find(a) {
            Some(i) => {
                proof {
                    lemma_get_found(self.entries@, a, i as int);
                }
                self.entries[i].1
            }
            None => {
                proof {
                    lemma_get_absent(self.entries@, a);
                }
                0
            }
        }
    }

    /// Sets the balance of `a` to `v`, leaving every other account untouched
    /// and moving the sum by the difference between `v` and `a`'s old
    /// balance.
    pub fn set(&mut self, a: AccountId, v: u128)
        requires
            old(self).wf(),
        ensures
            final(self).wf(),
            final(self).spec_get(a) == v,
            forall|b: AccountId| b != a ==> final(self).spec_get(b) == old(self).spec_get(b),
            final(self).total() == old(self).total() - old(self).spec_get(a) + v,
    {
        let ghost s0 = self.entries@;
        match self.find(a) {
            Some(i) => {
                self.entries[i] = (a, v);
                proof {
                    lemma_get_found(s0, a, i as int);
                    lemma_get_found(self.entries@, a, i as int);
                    lemma_sum_update(s0, i as int, (a, v));
                    assert forall|b: AccountId| b != a implies
                        seq_get(self.entries@, b) == seq_get(s0, b) by {
                        lemma_get_update_other(s0, i as int, (a, v), b);
                    }
                    assert forall|p: int, q: int|
                        0 <= p < q < self.entries@.len() implies
                        self.entries@[p].0 != self.entries@[q].0 by {
                        assert(self.entries@[p].0 == s0[p].0);
                        assert(self.entries@[q].0 == s0[q].0);
                    }
                }
            }
            None => {
                self.entries.push((a, v));
                proof {
                    lemma_get_absent(s0, a);
                    lemma_get_found(self.entries@, a, s0.len() as int);
                    lemma_sum_push(s0, (a, v));
                    assert forall|b: AccountId| b != a implies
                        seq_get(self.entries@, b) == seq_get(s0, b) by {
                        lemma_get_push_other(s0, (a, v), b);
                    }
                    assert forall|p: int, q: int|
                        0 <= p < q < self.entries@.len() implies
                        self.entries@[p].0 != self.entries@[q].0 by {
                        if q < s0.len() {
                            assert(self.entries@[p].0 == s0[p].0);
                            assert(self.entries@[q].0 == s0[q].0);
                        } else {
                            assert(self.entries@[p].0 == s0[p].0);
                            assert(self.entries@[q].0 == a);
                        }
                    }
                }
            }
        }
    }

    /// The balances of two distinct accounts together never exceed the sum
    /// of all balances.
    pub proof fn lemma_pair_bounded_by_total(self, a: AccountId, b: AccountId)
        requires
            a != b,
        ensures
            self.spec_get(a) + self.spec_get(b) <= self.total(),
    {
        lemma_sum_two(self.entries@, a, b);
    }

    /// No account ever holds more than the sum of all balances.
    pub proof fn lemma_get_bounded_by_total(self, a: AccountId)
        ensures
            0 <= self.spec_get(a) <= self.total(),
    {
        lemma_get_le_sum(self.entries@, a);
    }
}

} // verus!
