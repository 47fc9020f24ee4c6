use vstd::prelude::*;

use crate::account::AccountId;
use crate::allowances::Allowances;
use crate::balances::Balances;
use crate::errors::Error;

verus! {

/// A fungible-token ledger.
///
/// The ledger owns the balance and allowance tables plus immutable
/// descriptive metadata; all mutation goes through [`Self::transfer`],
/// [`Self::approve`] and [`Self::transfer_from`], each of which either fully
/// commits or leaves the ledger untouched. The caller's identity is an
/// explicit parameter of every mutating operation, so a hosting environment
/// supplies it and tests can simulate arbitrary callers.
pub struct ERC20 {
    name: String,
    symbol: String,
    decimals: u8,
    total_supply: u128,
    balances: Balances,
    allowances: Allowances,
}

impl ERC20 {
    /// Well-formed ledger: both tables are duplicate-free and the balances
    /// sum to exactly the total supply (the conservation invariant).
    pub closed spec fn wf(self) -> bool {
        &&& self.balances.wf()
        &&& self.allowances.wf()
        &&& self.balances.total() == self.total_supply as int
    }

    /// The display name.
    pub closed spec fn spec_name(self) -> Seq<char> {
        self.name@
    }

    /// The display symbol.
    pub closed spec fn spec_symbol(self) -> Seq<char> {
        self.symbol@
    }

    /// The display precision hint.
    pub closed spec fn spec_decimals(self) -> u8 {
        self.decimals
    }

    /// The fixed total supply.
    pub closed spec fn spec_total_supply(self) -> u128 {
        self.total_supply
    }

    /// The balance of `account`; an account without an entry holds 0.
    pub closed spec fn spec_balance_of(self, account: AccountId) -> u128 {
        self.balances.spec_get(account)
    }

    /// The allowance `spender` holds from `owner`; an absent pair has 0.
    pub closed spec fn spec_allowance(self, owner: AccountId, spender: AccountId) -> u128 {
        self.allowances.spec_get(owner, spender)
    }

    /// The sum of every account's balance.
    pub closed spec fn spec_sum_balances(self) -> int {
        self.balances.total()
    }

    /// The descriptive fields and the supply of `post` are those of `pre`.
    pub open spec fn same_metadata(pre: Self, post: Self) -> bool {
        &&& post.spec_name() == pre.spec_name()
        &&& post.spec_symbol() == pre.spec_symbol()
        &&& post.spec_decimals() == pre.spec_decimals()
        &&& post.spec_total_supply() == pre.spec_total_supply()
    }

    /// Every account holds the same balance in `post` as in `pre`.
    pub open spec fn same_balances(pre: Self, post: Self) -> bool {
        forall|a: AccountId| post.spec_balance_of(a) == pre.spec_balance_of(a)
    }

    /// Every pair has the same allowance in `post` as in `pre`.
    pub open spec fn same_allowances(pre: Self, post: Self) -> bool {
        forall|o: AccountId, s: AccountId| post.spec_allowance(o, s) == pre.spec_allowance(o, s)
    }

    /// `amount` moved from `from` to `to`: the sender is debited, the
    /// recipient credited, every other balance untouched. Moving funds from
    /// an account to itself changes no balance at all.
    pub open spec fn balances_moved(
        pre: Self,
        post: Self,
        from: AccountId,
        to: AccountId,
        amount: u128,
    ) -> bool {
        if from == to {
            Self::same_balances(pre, post)
        } else {
            &&& post.spec_balance_of(from) == pre.spec_balance_of(from) - amount
            &&& post.spec_balance_of(to) == pre.spec_balance_of(to) + amount
            &&& forall|a: AccountId|
                a != from && a != to ==> post.spec_balance_of(a) == pre.spec_balance_of(a)
        }
    }

    /// An approval by `owner`: the `(owner, spender)` allowance is
    /// overwritten — not added to — with `amount`, and nothing else changes.
    pub open spec fn approved(
        pre: Self,
        post: Self,
        owner: AccountId,
        spender: AccountId,
        amount: u128,
    ) -> bool {
        &&& Self::same_metadata(pre, post)
        &&& Self::same_balances(pre, post)
        &&& post.spec_allowance(owner, spender) == amount
        &&& forall|o: AccountId, s: AccountId|
            !(o == owner && s == spender) ==> post.spec_allowance(o, s) == pre.spec_allowance(o, s)
    }

    /// Builds a ledger that assigns the entire supply to `initial_holder`
    /// (the constructing caller, supplied by the environment) and starts
    /// with every allowance at 0. Construction always succeeds, and the
    /// conservation invariant holds immediately.
    pub fn new(
        name: String,
        symbol: String,
        decimals: u8,
        initial_supply: u128,
        initial_holder: AccountId,
    ) -> (r: Self)
        ensures
            r.wf(),
            r.spec_name() == name@,
            r.spec_symbol() == symbol@,
            r.spec_decimals() == decimals,
            r.spec_total_supply() == initial_supply,
            r.spec_balance_of(initial_holder) == initial_supply,
            forall|a: AccountId| a != initial_holder ==> r.spec_balance_of(a) == 0,
            forall|o: AccountId, s: AccountId| r.spec_allowance(o, s) == 0,
    {
        let mut balances = Balances::new();
        balances.set(initial_holder, initial_supply);
        ERC20 {
            name,
            symbol,
            decimals,
            total_supply: initial_supply,
            balances,
            allowances: Allowances::new(),
        }
    }

    /// The display name, verbatim.
    pub fn name(&self) -> (r: String)
        ensures
            r@ == self.spec_name(),
    {
        self.name.clone()
    }

    /// The display symbol, verbatim.
    pub fn symbol(&self) -> (r: String)
        ensures
            r@ == self.spec_symbol(),
    {
        self.symbol.clone()
    }

    /// The display precision hint; it never affects amount arithmetic.
    pub fn decimals(&self) -> (r: u8)
        ensures
            r == self.spec_decimals(),
    {
        self.decimals
    }

    /// The total supply fixed at construction.
    pub fn total_supply(&self) -> (r: u128)
        ensures
            r == self.spec_total_supply(),
    {
        self.total_supply
    }

    /// The balance of `account`, 0 for an account never seen.
    pub fn balance_of(&self, account: AccountId) -> (r: u128)
        ensures
            r == self.spec_balance_of(account),
    {
        self.balances.get(account)
    }

    /// The allowance `spender` holds from `owner`, 0 for a pair never
    /// approved.
    pub fn allowance(&self, owner: AccountId, spender: AccountId) -> (r: u128)
        ensures
            r == self.spec_allowance(owner, spender),
    {
        self.allowances.get(owner, spender)
    }

    /// Moves `amount` from the calling account to `to`.
    ///
    /// Succeeds exactly when `caller` holds at least `amount`; a failure
    /// leaves the ledger untouched. The caller's own direct transfer never
    /// consumes any allowance.
    pub fn transfer(&mut self, caller: AccountId, to: AccountId, amount: u128) -> (r: Result<
        (),
        Error,
    >)
        requires
            old(self).wf(),
        ensures
            final(self).wf(),
            Self::same_metadata(*old(self), *final(self)),
            Self::same_allowances(*old(self), *final(self)),
            r is Ok <==> old(self).spec_balance_of(caller) >= amount,
            r is Ok ==> Self::balances_moved(*old(self), *final(self), caller, to, amount),
            r is Err ==> *final(self) == *old(self) && r == Err::<(), Error>(
                Error::InsufficientBalance,
            ),
    {
        self.transfer_from_to(caller, to, amount)
    }

    /// Sets the allowance of `(caller, spender)` to `amount`, overwriting
    /// any prior value; balances and metadata are untouched.
    ///
    /// Always succeeds. Because the allowance is replaced rather than
    /// adjusted by a delta, a spender who acts between two approvals of the
    /// same pair may spend up to the sum of both values; callers who need to
    /// shrink an allowance safely should first set it to 0.
    pub fn approve(&mut self, caller: AccountId, spender: AccountId, amount: u128) -> (r: Result<
        (),
        Error,
    >)
        requires
            old(self).wf(),
        ensures
            final(self).wf(),
            r == Ok::<(), Error>(()),
            Self::approved(*old(self), *final(self), caller, spender, amount),
    {
        self.allowances.set(caller, spender, amount);
        Ok(())
    }

    /// Moves `amount` from `from` to `to` on behalf of `from`, spending the
    /// allowance `from` granted to the calling account.
    ///
    /// Succeeds exactly when that allowance and `from`'s balance both cover
    /// `amount`; the allowance then shrinks by `amount`. Any failure leaves
    /// the ledger untouched — in particular an insufficient balance does not
    /// consume allowance.
    pub fn transfer_from(
        &mut self,
        caller: AccountId,
        from: AccountId,
        to: AccountId,
        amount: u128,
    ) -> (r: Result<(), Error>)
        requires
            old(self).wf(),
        ensures
            final(self).wf(),
            Self::same_metadata(*old(self), *final(self)),
            r is Ok <==> old(self).spec_allowance(from, caller) >= amount && old(
                self,
            ).spec_balance_of(from) >= amount,
            r is Ok ==> Self::balances_moved(*old(self), *final(self), from, to, amount),
            r is Ok ==> final(self).spec_allowance(from, caller) == old(self).spec_allowance(
                from,
                caller,
            ) - amount,
            r is Ok ==> forall|o: AccountId, s: AccountId|
                !(o == from && s == caller) ==> final(self).spec_allowance(o, s) == old(
                    self,
                ).spec_allowance(o, s),
            r is Err ==> *final(self) == *old(self),
            r == Err::<(), Error>(Error::AllowanceExceeded) <==> old(self).spec_allowance(
                from,
                caller,
            ) < amount,
            r == Err::<(), Error>(Error::InsufficientBalance) <==> old(self).spec_allowance(
                from,
                caller,
            ) >= amount && old(self).spec_balance_of(from) < amount,
    {
        let current_allowance = self.allowances.get(from, caller);
        if current_allowance < amount {
            return Err(Error::AllowanceExceeded);
        }
        match self.transfer_from_to(from, to, amount) {
            Ok(()) => {
                self.allowances.set(from, caller, current_allowance - amount);
                Ok(())
            },
            Err(e) => Err(e),
        }
    }

    /// The transfer primitive shared by `transfer` and `transfer_from`.
    ///
    /// Debits `from` and credits `to` in one atomic step, after checking the
    /// sender's balance. Equal accounts are special-cased to a pure
    /// validation: the two updates would cancel, and writing them out would
    /// risk crediting a stale read. Under the conservation invariant the
    /// credit can never overflow — the two balances together never exceed
    /// the total supply — so the overflow guard below is provably dead; it
    /// stays as the operation's last line of defence.
    fn transfer_from_to(&mut self, from: AccountId, to: AccountId, amount: u128) -> (r: Result<
        (),
        Error,
    >)
        requires
            old(self).wf(),
        ensures
            final(self).wf(),
            Self::same_metadata(*old(self), *final(self)),
            Self::same_allowances(*old(self), *final(self)),
            r is Ok <==> old(self).spec_balance_of(from) >= amount,
            r is Ok ==> Self::balances_moved(*old(self), *final(self), from, to, amount),
            r is Err ==> *final(self) == *old(self) && r == Err::<(), Error>(
                Error::InsufficientBalance,
            ),
    {
        let sender_balance = self.balances.get(from);
        if sender_balance < amount {
            return Err(Error::InsufficientBalance);
        }
        if from == to {
            return Ok(());
        }
        let recipient_balance = self.balances.get(to);
        proof {
            self.balances.lemma_pair_bounded_by_total(from, to);
        }
        if recipient_balance > u128::MAX - amount {
            return Err(Error::Overflow);
        }
        self.balances.set(from, sender_balance - amount);
        self.balances.set(to, recipient_balance + amount);
        Ok(())
    }

    /// Conservation law: in every well-formed ledger the balances sum to
    /// exactly the total supply. Construction establishes well-formedness
    /// and every operation preserves it, so the law holds in every
    /// reachable state.
    pub proof fn lemma_conservation(self)
        requires
            self.wf(),
        ensures
            self.spec_sum_balances() == self.spec_total_supply(),
    {
    }

    /// No balance is ever negative, and in a well-formed ledger no single
    /// balance exceeds the total supply.
    pub proof fn lemma_balance_in_range(self, account: AccountId)
        requires
            self.wf(),
        ensures
            0 <= self.spec_balance_of(account) <= self.spec_total_supply(),
    {
        self.balances.lemma_get_bounded_by_total(account);
    }

    /// A later approval of a pair overwrites an earlier one: after two
    /// approvals of `(owner, spender)` the allowance is the second amount —
    /// never the sum — and nothing else has changed.
    pub proof fn lemma_approve_overwrites(
        l0: Self,
        l1: Self,
        l2: Self,
        owner: AccountId,
        spender: AccountId,
        first: u128,
        second: u128,
    )
        requires
            Self::approved(l0, l1, owner, spender, first),
            Self::approved(l1, l2, owner, spender, second),
        ensures
            l2.spec_allowance(owner, spender) == second,
            forall|o: AccountId, s: AccountId|
                !(o == owner && s == spender) ==> l2.spec_allowance(o, s) == l0.spec_allowance(o, s),
            Self::same_balances(l0, l2),
            Self::same_metadata(l0, l2),
    {
    }

    /// A successful transfer from an account to itself leaves every balance
    /// exactly as it was: funds are neither destroyed nor duplicated.
    pub proof fn lemma_self_transfer_noop(pre: Self, post: Self, account: AccountId, amount: u128)
        requires
            Self::balances_moved(pre, post, account, account, amount),
        ensures
            Self::same_balances(pre, post),
    {
    }
}

} // verus!
