//! The reference model: an independently implemented oracle that stores one
//! balance per account and updates it by direct arithmetic, with no log.
//!
//! It is deliberately a different representation of the same semantics as
//! the ledger, so a bug in either the derivation logic or the direct-update
//! logic shows up as divergence. The model does not enforce the frozen,
//! closed, or overdraft rules itself: it records the flags so that the
//! precondition filter can consult them, and it is only ever driven with
//! transitions the filter has accepted, stated here as preconditions.

use vstd::prelude::*;

verus! {

/// The model's whole knowledge of one account: a stored balance and the
/// status flags the precondition filter consults.
#[derive(Clone, Copy, PartialEq, Eq, Structural, Debug)]
pub struct ModelAccount {
    pub balance: i64,
    pub frozen: bool,
    pub closed: bool,
    pub allow_overdraft: bool,
}

/// The oracle: account `id` is `accounts[id]`, mirroring the ledger's
/// sequential identifier assignment.
#[derive(Debug)]
pub struct RefModel {
    accounts: Vec<ModelAccount>,
}

impl View for RefModel {
    type V = Seq<ModelAccount>;

    closed spec fn view(&self) -> Seq<ModelAccount> {
        self.accounts@
    }
}

impl RefModel {
    /// A fresh model: no accounts.
    pub fn new() -> (m: RefModel)
        ensures
            m@.len() == 0,
    {
        RefModel { accounts: Vec::new() }
    }

    /// How many accounts have been opened.
    pub fn account_count(&self) -> (n: u64)
        ensures
            n == self@.len(),
    {
        self.accounts.len() as u64
    }

    /// The stored balance of `id`.
    pub fn balance(&self, id: u64) -> (b: i64)
        requires
            id < self@.len(),
        ensures
            b == self@[id as int].balance,
    {
        self.account(id).balance
    }

    /// The stored flags of `id`.
    pub fn account(&self, id: u64) -> (a: ModelAccount)
        requires
            id < self@.len(),
        ensures
            a == self@[id as int],
    {
        proof {
            broadcast use vstd::std_specs::vec::axiom_spec_len;

            assert(self.accounts.len() == self@.len());
        }
        self.accounts[id as usize]
    }

    /// Opens the next account: balance zero, unfrozen, not closed, with
    /// the given overdraft permission.
    pub fn open(&mut self, allow_overdraft: bool) -> (id: u64)
        ensures
            id == old(self)@.len(),
            final(self)@ == old(self)@.push(
                ModelAccount { balance: 0, frozen: false, closed: false, allow_overdraft },
            ),
    {
        let id = self.accounts.len() as u64;
        self.accounts.push(
            ModelAccount { balance: 0, frozen: false, closed: false, allow_overdraft },
        );
        id
    }

    /// Adds `amount` to the stored balance, by direct arithmetic.
    pub fn deposit(&mut self, id: u64, amount: u64)
        requires
            id < old(self)@.len(),
            old(self)@[id as int].balance + amount <= i64::MAX,
        ensures
            final(self)@ == old(self)@.update(
                id as int,
                ModelAccount {
                    balance: (old(self)@[id as int].balance + amount) as i64,
                    ..old(self)@[id as int]
                },
            ),
    {
        let idx = id as usize;
        proof {
            broadcast use vstd::std_specs::vec::axiom_spec_len;

            assert(self.accounts.len() == self@.len());
        }
        let mut a = self.accounts[idx];
        let wide: i128 = a.balance as i128 + amount as i128;
        a.balance = wide as i64;
        self.accounts.set(idx, a);
    }

    /// Subtracts `amount` from the stored balance, by direct arithmetic.
    pub fn withdraw(&mut self, id: u64, amount: u64)
        requires
            id < old(self)@.len(),
            old(self)@[id as int].balance - amount >= i64::MIN,
        ensures
            final(self)@ == old(self)@.update(
                id as int,
                ModelAccount {
                    balance: (old(self)@[id as int].balance - amount) as i64,
                    ..old(self)@[id as int]
                },
            ),
    {
        let idx = id as usize;
        proof {
            broadcast use vstd::std_specs::vec::axiom_spec_len;

            assert(self.accounts.len() == self@.len());
        }
        let mut a = self.accounts[idx];
        let wide: i128 = a.balance as i128 - amount as i128;
        a.balance = wide as i64;
        self.accounts.set(idx, a);
    }

    /// Moves `amount` from one stored balance to another.
    pub fn transfer(&mut self, from: u64, to: u64, amount: u64)
        requires
            from < old(self)@.len(),
            to < old(self)@.len(),
            from != to,
            old(self)@[from as int].balance - amount >= i64::MIN,
            old(self)@[to as int].balance + amount <= i64::MAX,
        ensures
            final(self)@ == old(self)@.update(
                from as int,
                ModelAccount {
                    balance: (old(self)@[from as int].balance - amount) as i64,
                    ..old(self)@[from as int]
                },
            ).update(
                to as int,
                ModelAccount {
                    balance: (old(self)@[to as int].balance + amount) as i64,
                    ..old(self)@[to as int]
                },
            ),
    {
        self.withdraw(from, amount);
        self.deposit(to, amount);
    }

    /// Sets the frozen flag.
    pub fn freeze(&mut self, id: u64)
        requires
            id < old(self)@.len(),
        ensures
            final(self)@ == old(self)@.update(
                id as int,
                ModelAccount { frozen: true, ..old(self)@[id as int] },
            ),
    {
        let idx = id as usize;
        proof {
            broadcast use vstd::std_specs::vec::axiom_spec_len;

            assert(self.accounts.len() == self@.len());
        }
        let mut a = self.accounts[idx];
        a.frozen = true;
        self.accounts.set(idx, a);
    }

    /// Clears the frozen flag.
    pub fn unfreeze(&mut self, id: u64)
        requires
            id < old(self)@.len(),
        ensures
            final(self)@ == old(self)@.update(
                id as int,
                ModelAccount { frozen: false, ..old(self)@[id as int] },
            ),
    {
        let idx = id as usize;
        proof {
            broadcast use vstd::std_specs::vec::axiom_spec_len;

            assert(self.accounts.len() == self@.len());
        }
        let mut a = self.accounts[idx];
        a.frozen = false;
        self.accounts.set(idx, a);
    }

    /// Sets the closed flag.
    pub fn close(&mut self, id: u64)
        requires
            id < old(self)@.len(),
        ensures
            final(self)@ == old(self)@.update(
                id as int,
                ModelAccount { closed: true, ..old(self)@[id as int] },
            ),
    {
        let idx = id as usize;
        proof {
            broadcast use vstd::std_specs::vec::axiom_spec_len;

            assert(self.accounts.len() == self@.len());
        }
        let mut a = self.accounts[idx];
        a.closed = true;
        self.accounts.set(idx, a);
    }
}

} // verus!
