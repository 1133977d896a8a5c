//! The currency ledger: per-account spendable (`free`) and held (`reserved`)
//! balances.  Reserving moves funds from spendable to held; unreserving moves
//! them back; transferring moves spendable funds between accounts, and with
//! the keep-alive flag refuses to leave the sender below the existential
//! minimum.  Every operation conserves the total issuance, and the ledger
//! keeps the invariant that the total issuance fits in a `Balance`, so no
//! individual movement can overflow.

use vstd::prelude::*;
use crate::primitives::{AccountId, Balance, Error};
use crate::store::{find, keys_unique, find_index, lemma_find_update, lemma_find_push};

verus! {

/// The two balances of one account.
#[derive(Clone, Copy, Debug, PartialEq, Eq, Structural)]
pub struct AccountState {
    /// Spendable balance.
    pub free: Balance,
    /// Balance held by a reservation.
    pub reserved: Balance,
}

/// Sum of both balances of the accounts in `s[i..]`.
pub open spec fn total_from(s: Seq<(AccountId, AccountState)>, i: int) -> int
    decreases s.len() - i,
{
    if i < 0 || i >= s.len() {
        0
    } else {
        s[i].1.free + s[i].1.reserved + total_from(s, i + 1)
    }
}

proof fn lemma_total_from_nonneg(s: Seq<(AccountId, AccountState)>, i: int)
    ensures
        total_from(s, i) >= 0,
    decreases s.len() - i,
{
    if 0 <= i < s.len() {
        lemma_total_from_nonneg(s, i + 1);
    }
}

proof fn lemma_total_from_elem(s: Seq<(AccountId, AccountState)>, i: int, j: int)
    requires
        0 <= j <= i < s.len(),
    ensures
        total_from(s, j) >= s[i].1.free + s[i].1.reserved,
    decreases i - j,
{
    lemma_total_from_nonneg(s, j + 1);
    if j < i {
        lemma_total_from_elem(s, i, j + 1);
        lemma_total_from_nonneg(s, i + 1);
    } else {
        lemma_total_from_nonneg(s, i + 1);
    }
}

proof fn lemma_total_from_update(s: Seq<(AccountId, AccountState)>, i: int, e: (AccountId, AccountState), j: int)
    requires
        0 <= i < s.len(),
        0 <= j <= s.len(),
    ensures
        total_from(s.update(i, e), j) == total_from(s, j) + if j <= i {
            e.1.free + e.1.reserved - s[i].1.free - s[i].1.reserved
        } else {
            0
        },
    decreases s.len() - j,
{
    if j < s.len() {
        lemma_total_from_update(s, i, e, j + 1);
    }
}

proof fn lemma_total_from_push(s: Seq<(AccountId, AccountState)>, e: (AccountId, AccountState), j: int)
    requires
        0 <= j <= s.len(),
    ensures
        total_from(s.push(e), j) == total_from(s, j) + e.1.free + e.1.reserved,
    decreases s.len() - j,
{
    if j < s.len() {
        lemma_total_from_push(s, e, j + 1);
    } else {
        assert(total_from(s.push(e), j + 1) == 0);
    }
}

/// The currency ledger.
pub struct Ledger {
    accounts: Vec<(AccountId, AccountState)>,
    min_balance: Balance,
}

impl Ledger {
    /// One account per key, and the total issuance fits in a `Balance`.
    pub closed spec fn wf(self) -> bool {
        &&& keys_unique(self.accounts@)
        &&& total_from(self.accounts@, 0) <= Balance::MAX
    }

    /// Spendable balance of `who`; an unknown account holds nothing.
    pub closed spec fn free_of(self, who: AccountId) -> int {
        match find(self.accounts@, who) {
            Some(a) => a.free as int,
            None => 0,
        }
    }

    /// Held balance of `who`; an unknown account holds nothing.
    pub closed spec fn reserved_of(self, who: AccountId) -> int {
        match find(self.accounts@, who) {
            Some(a) => a.reserved as int,
            None => 0,
        }
    }

    /// Total issuance: the sum of both balances over all accounts.
    pub closed spec fn total(self) -> int {
        total_from(self.accounts@, 0)
    }

    /// The existential minimum a keep-alive transfer must respect.
    pub closed spec fn spec_min_balance(self) -> int {
        self.min_balance as int
    }

    /// An empty ledger with the given existential minimum.
    pub fn new(min_balance: Balance) -> (l: Ledger)
        ensures
            l.wf(),
            l.total() == 0,
            l.spec_min_balance() == min_balance,
            forall|w: AccountId| l.free_of(w) == 0 && l.reserved_of(w) == 0,
    {
        Ledger { accounts: Vec::new(), min_balance }
    }

    /// The existential minimum.
    pub fn min_balance(&self) -> (r: Balance)
        ensures
            r == self.spec_min_balance(),
    {
        self.min_balance
    }

    /// Spendable balance of `who`.
    pub fn free_balance(&self, who: AccountId) -> (r: Balance)
        ensures
            r == self.free_of(who),
    {
        match find_index(&self.accounts, who) {
            Some(i) => self.accounts[i].1.free,
            None => 0,
        }
    }

    /// Held balance of `who`.
    pub fn reserved_balance(&self, who: AccountId) -> (r: Balance)
        ensures
            r == self.reserved_of(who),
    {
        match find_index(&self.accounts, who) {
            Some(i) => self.accounts[i].1.reserved,
            None => 0,
        }
    }

    /// Issue `amount` new units to the spendable balance of `who`.  Fails
    /// only when the issuance would no longer fit in a `Balance`.
    pub fn endow(&mut self, who: AccountId, amount: Balance) -> (r: Result<(), Error>)
        requires
            old(self).wf(),
        ensures
            final(self).wf(),
            final(self).spec_min_balance() == old(self).spec_min_balance(),
            match r {
                Ok(()) => {
                    &&& old(self).total() + amount <= Balance::MAX
                    &&& final(self).total() == old(self).total() + amount
                    &&& final(self).free_of(who) == old(self).free_of(who) + amount
                    &&& forall|w: AccountId|
                        w != who ==> final(self).free_of(w) == old(self).free_of(w)
                    &&& forall|w: AccountId| final(self).reserved_of(w) == old(self).reserved_of(w)
                },
                Err(e) => {
                    &&& e == Error::Overflow
                    &&& old(self).total() + amount > Balance::MAX
                    &&& *final(self) == *old(self)
                },
            },
    {
        proof {
            lemma_total_from_nonneg(self.accounts@, 0);
        }
        match find_index(&self.accounts, who) {
            Some(i) => {
                proof {
                    lemma_total_from_elem(self.accounts@, i as int, 0);
                }
                let a = self.accounts[i].1;
                // the account's own weight is bounded by the total, so the
                // only way the new free balance can overflow is the total
                // overflowing, which the check below refuses
                if amount > Balance::MAX - self.total_issued() {
                    return Err(Error::Overflow);
                }
                let ghost pre = self.accounts@;
                let updated = AccountState { free: a.free + amount, reserved: a.reserved };
                self.accounts[i] = (who, updated);
                proof {
                    lemma_find_update(pre, i as int, updated);
                    lemma_total_from_update(pre, i as int, (who, updated), 0);
                }
                Ok(())
            },
            None => {
                if amount > Balance::MAX - self.total_issued() {
                    return Err(Error::Overflow);
                }
                let ghost pre = self.accounts@;
                let fresh = AccountState { free: amount, reserved: 0 };
                self.accounts.push((who, fresh));
                proof {
                    lemma_find_push(pre, who, fresh);
                    lemma_total_from_push(pre, (who, fresh), 0);
                }
                Ok(())
            },
        }
    }

    /// The total issuance, computed by maintaining it against the invariant.
    fn total_issued(&self) -> (t: Balance)
        requires
            self.wf(),
        ensures
            t == self.total(),
    {
        let n = self.accounts.len();
        let mut t: Balance = 0;
        let mut i: usize = 0;
        proof {
            lemma_total_from_nonneg(self.accounts@, 0);
        }
        while i < n
            invariant
                self.wf(),
                n == self.accounts.len(),
                0 <= i <= n,
                t + total_from(self.accounts@, i as int) == self.total(),
                t <= Balance::MAX,
            decreases n - i,
        {
            proof {
                lemma_total_from_nonneg(self.accounts@, i + 1);
                lemma_total_from_nonneg(self.accounts@, i as int);
            }
            let a = self.accounts[i].1;
            t = t + a.free + a.reserved;
            i = i + 1;
        }
        t
    }

    /// Move `amount` from the spendable to the held balance of `who`.
    /// Fails exactly when the spendable balance cannot cover it.
    pub fn reserve(&mut self, who: AccountId, amount: Balance) -> (r: Result<(), Error>)
        requires
            old(self).wf(),
        ensures
            final(self).wf(),
            final(self).spec_min_balance() == old(self).spec_min_balance(),
            final(self).total() == old(self).total(),
            match r {
                Ok(()) => {
                    &&& old(self).free_of(who) >= amount
                    &&& final(self).free_of(who) == old(self).free_of(who) - amount
                    &&& final(self).reserved_of(who) == old(self).reserved_of(who) + amount
                    &&& forall|w: AccountId|
                        w != who ==> final(self).free_of(w) == old(self).free_of(w)
                            && final(self).reserved_of(w) == old(self).reserved_of(w)
                },
                Err(e) => {
                    &&& e == Error::InsufficientFunds
                    &&& old(self).free_of(who) < amount
                    &&& *final(self) == *old(self)
                },
            },
    {
        match find_index(&self.accounts, who) {
            Some(i) => {
                let a = self.accounts[i].1;
                if a.free < amount {
                    return Err(Error::InsufficientFunds);
                }
                proof {
                    lemma_total_from_elem(self.accounts@, i as int, 0);
                }
                let ghost pre = self.accounts@;
                let updated = AccountState { free: a.free - amount, reserved: a.reserved + amount };
                self.accounts[i] = (who, updated);
                proof {
                    lemma_find_update(pre, i as int, updated);
                    lemma_total_from_update(pre, i as int, (who, updated), 0);
                }
                Ok(())
            },
            None => {
                if amount == 0 {
                    Ok(())
                } else {
                    Err(Error::InsufficientFunds)
                }
            },
        }
    }

    /// Move back as much of `amount` as is actually held by `who`, and
    /// return how much moved.
    pub fn unreserve(&mut self, who: AccountId, amount: Balance) -> (moved: Balance)
        requires
            old(self).wf(),
        ensures
            final(self).wf(),
            final(self).spec_min_balance() == old(self).spec_min_balance(),
            final(self).total() == old(self).total(),
            moved == if amount <= old(self).reserved_of(who) {
                amount as int
            } else {
                old(self).reserved_of(who)
            },
            final(self).reserved_of(who) == old(self).reserved_of(who) - moved,
            final(self).free_of(who) == old(self).free_of(who) + moved,
            forall|w: AccountId|
                w != who ==> final(self).free_of(w) == old(self).free_of(w)
                    && final(self).reserved_of(w) == old(self).reserved_of(w),
    {
        match find_index(&self.accounts, who) {
            Some(i) => {
                let a = self.accounts[i].1;
                let moved = if amount <= a.reserved {
                    amount
                } else {
                    a.reserved
                };
                proof {
                    lemma_total_from_elem(self.accounts@, i as int, 0);
                }
                let ghost pre = self.accounts@;
                let updated = AccountState { free: a.free + moved, reserved: a.reserved - moved };
                self.accounts[i] = (who, updated);
                proof {
                    lemma_find_update(pre, i as int, updated);
                    lemma_total_from_update(pre, i as int, (who, updated), 0);
                }
                moved
            },
            None => 0,
        }
    }

    /// Whether a transfer of `amount` out of `from` would succeed.
    pub open spec fn can_transfer(
        self,
        from: AccountId,
        amount: Balance,
        keep_alive: bool,
    ) -> bool {
        &&& self.free_of(from) >= amount
        &&& (keep_alive ==> self.free_of(from) - amount >= self.spec_min_balance())
    }

    /// Move `amount` of spendable balance from `from` to `to`.  With
    /// `keep_alive` the sender must keep at least the existential minimum.
    pub fn transfer(
        &mut self,
        from: AccountId,
        to: AccountId,
        amount: Balance,
        keep_alive: bool,
    ) -> (r: Result<(), Error>)
        requires
            old(self).wf(),
        ensures
            final(self).wf(),
            final(self).spec_min_balance() == old(self).spec_min_balance(),
            final(self).total() == old(self).total(),
            forall|w: AccountId| final(self).reserved_of(w) == old(self).reserved_of(w),
            match r {
                Ok(()) => {
                    &&& old(self).can_transfer(from, amount, keep_alive)
                    &&& from != to ==> final(self).free_of(from) == old(self).free_of(from)
                        - amount && final(self).free_of(to) == old(self).free_of(to) + amount
                    &&& from == to ==> final(self).free_of(from) == old(self).free_of(from)
                    &&& forall|w: AccountId|
                        w != from && w != to ==> final(self).free_of(w) == old(self).free_of(w)
                },
                Err(e) => {
                    &&& e == Error::InsufficientFunds
                    &&& !old(self).can_transfer(from, amount, keep_alive)
                    &&& *final(self) == *old(self)
                },
            },
    {
        let from_free = self.free_balance(from);
        if from_free < amount {
            return Err(Error::InsufficientFunds);
        }
        if keep_alive && from_free - amount < self.min_balance {
            return Err(Error::InsufficientFunds);
        }
        if from == to {
            return Ok(());
        }
        // take the funds out of the sender first: the shrunken total then
        // bounds the recipient's new balance
        let i = match find_index(&self.accounts, from) {
            Some(i) => i,
            None => {
                // free_of(from) >= amount and an unknown account holds 0,
                // so amount == 0 here
                proof {
                    assert(amount == 0);
                }
                return self.transfer_to_only(to, amount);
            },
        };
        let a = self.accounts[i].1;
        let ghost pre = self.accounts@;
        let debited = AccountState { free: a.free - amount, reserved: a.reserved };
        self.accounts[i] = (from, debited);
        proof {
            lemma_find_update(pre, i as int, debited);
            lemma_total_from_update(pre, i as int, (from, debited), 0);
        }
        self.transfer_to_only(to, amount)
    }

    /// Credit `amount` to the spendable balance of `to`, creating the
    /// account if needed.  The total must have room for it.
    fn transfer_to_only(&mut self, to: AccountId, amount: Balance) -> (r: Result<(), Error>)
        requires
            old(self).wf(),
            old(self).total() + amount <= Balance::MAX,
        ensures
            final(self).wf(),
            final(self).spec_min_balance() == old(self).spec_min_balance(),
            final(self).total() == old(self).total() + amount,
            forall|w: AccountId| final(self).reserved_of(w) == old(self).reserved_of(w),
            final(self).free_of(to) == old(self).free_of(to) + amount,
            forall|w: AccountId| w != to ==> final(self).free_of(w) == old(self).free_of(w),
            r is Ok,
    {
        proof {
            lemma_total_from_nonneg(self.accounts@, 0);
        }
        match find_index(&self.accounts, to) {
            Some(i) => {
                proof {
                    lemma_total_from_elem(self.accounts@, i as int, 0);
                }
                let a = self.accounts[i].1;
                let ghost pre = self.accounts@;
                let credited = AccountState { free: a.free + amount, reserved: a.reserved };
                self.accounts[i] = (to, credited);
                proof {
                    lemma_find_update(pre, i as int, credited);
                    lemma_total_from_update(pre, i as int, (to, credited), 0);
                }
                Ok(())
            },
            None => {
                let ghost pre = self.accounts@;
                let fresh = AccountState { free: amount, reserved: 0 };
                self.accounts.push((to, fresh));
                proof {
                    lemma_find_push(pre, to, fresh);
                    lemma_total_from_push(pre, (to, fresh), 0);
                }
                Ok(())
            },
        }
    }
}

} // verus!
