//! The ledger itself: an append-only transaction log plus a registry of
//! account statuses, with every balance derived from the log on demand.

use vstd::prelude::*;
use crate::state::{
    BankState, balance_in, close_result, close_state, deposit_result, deposit_state, freeze_result,
    freeze_state, is_issued, ledger_inv, mutation_gate, open_id, open_state, transfer_result,
    transfer_state, unfreeze_state, withdraw_result, withdraw_state,
};
use crate::txn::{
    AccountFlags, LedgerError, Transaction, lemma_full_sum_fits, lemma_prefix_fit_push,
    lemma_sum_balance_prefix_step, lemma_sum_balance_push, lemma_untouched_balance_zero,
    prefix_sums_fit, sum_balance, txn_delta, txn_touches,
};

verus! {

/// The bank: account `id` is `accounts[id]`, and `transactions` is the
/// append-only log. No balance is stored anywhere; `balance` folds the
/// log each time it is asked.
#[derive(Debug)]
pub struct Bank {
    accounts: Vec<AccountFlags>,
    transactions: Vec<Transaction>,
}

impl View for Bank {
    type V = BankState;

    closed spec fn view(&self) -> BankState {
        BankState { accounts: self.accounts@, log: self.transactions@ }
    }
}

impl Bank {
    /// Every reachable bank satisfies the ledger invariant, and every
    /// per-account prefix sum of its log fits in an `i64`, so folding the
    /// log can never overflow.
    pub open spec fn wf(&self) -> bool {
        &&& ledger_inv(self@)
        &&& prefix_sums_fit(self@.log)
    }

    /// A fresh bank: no accounts, no transactions.
    pub fn new() -> (b: Bank)
        ensures
            b.wf(),
            b@.accounts.len() == 0,
            b@.log.len() == 0,
    {
        Bank { accounts: Vec::new(), transactions: Vec::new() }
    }

    /// How many accounts have been issued; equivalently, the next
    /// identifier `open` will return.
    pub fn account_count(&self) -> (n: u64)
        ensures
            n == self@.accounts.len(),
    {
        self.accounts.len() as u64
    }

    /// The mutation gate, evaluated on the live state: issued, not
    /// closed, not frozen, in that order.
    fn check_mutation(&self, id: u64) -> (r: Result<(), LedgerError>)
        ensures
            r == mutation_gate(self@, id),
    {
        if id >= self.accounts.len() as u64 {
            return Err(LedgerError::AccountNotFound);
        }
        let flags = self.accounts[id as usize];
        if flags.closed {
            return Err(LedgerError::AccountClosed);
        }
        if flags.frozen {
            return Err(LedgerError::AccountFrozen);
        }
        Ok(())
    }

    /// Folds the whole log, accumulating the signed contributions of
    /// `id`. The accumulator stays in `i64` range because every prefix
    /// sum does; the one-step widening to `i128` only carries the
    /// intermediate value of `acc + delta`.
    fn fold_balance(&self, id: u64) -> (b: i64)
        requires
            self.wf(),
        ensures
            b as int == balance_in(self@, id),
    {
        let n = self.transactions.len();
        let mut acc: i64 = 0;
        let mut i: usize = 0;
        while i < n
            invariant
                self.wf(),
                n == self.transactions.len(),
                i <= n,
                acc as int == sum_balance(self@.log.subrange(0, i as int), id),
            decreases n - i,
        {
            let t = self.transactions[i];
            let d: i128 = match t {
                Transaction::Deposit { to, amount } => if to == id {
                    amount as i128
                } else {
                    0i128
                },
                Transaction::Withdraw { from, amount } => if from == id {
                    -(amount as i128)
                } else {
                    0i128
                },
                Transaction::Transfer { from, to, amount } => if from == id {
                    -(amount as i128)
                } else if to == id {
                    amount as i128
                } else {
                    0i128
                },
            };
            let wide: i128 = acc as i128 + d;
            proof {
                lemma_sum_balance_prefix_step(self@.log, i as int, id);
                assert(d == txn_delta(t, id));
                assert(wide == sum_balance(self@.log.subrange(0, i as int + 1), id));
                assert(i64::MIN <= sum_balance(self@.log.subrange(0, i as int + 1), id)
                    <= i64::MAX);
            }
            acc = wide as i64;
            i = i + 1;
        }
        proof {
            assert(self@.log.subrange(0, n as int) =~= self@.log);
        }
        acc
    }

    /// Allocates the next account identifier, strictly above every
    /// identifier issued before, never reused, with balance zero and the
    /// overdraft permission fixed for the account's lifetime.
    pub fn open(&mut self, allow_overdraft: bool) -> (id: u64)
        requires
            old(self).wf(),
        ensures
            final(self).wf(),
            id == open_id(old(self)@),
            final(self)@ == open_state(old(self)@, allow_overdraft),
            forall|prev: u64| is_issued(old(self)@, prev) ==> prev < id,
            is_issued(final(self)@, id),
            balance_in(final(self)@, id) == 0,
    {
        let id = self.accounts.len() as u64;
        self.accounts.push(AccountFlags { frozen: false, closed: false, allow_overdraft });
        proof {
            lemma_untouched_balance_zero(self@.log, id);
        }
        id
    }

    /// Appends a Deposit record for an issued, non-closed, non-frozen
    /// account; otherwise returns that error and leaves the state unchanged.
    pub fn deposit(&mut self, id: u64, amount: u64) -> (r: Result<(), LedgerError>)
        requires
            old(self).wf(),
            amount >= 1,
            deposit_result(old(self)@, id, amount) is Ok ==> balance_in(old(self)@, id) + amount
                <= i64::MAX,
        ensures
            final(self).wf(),
            r == deposit_result(old(self)@, id, amount),
            final(self)@ == deposit_state(old(self)@, id, amount),
            r is Ok ==> balance_in(final(self)@, id) == balance_in(old(self)@, id) + amount,
            forall|a: u64| a != id ==> balance_in(final(self)@, a) == balance_in(old(self)@, a),
    {
        match self.check_mutation(id) {
            Err(e) => {
                return Err(e);
            },
            Ok(()) => {},
        }
        let t = Transaction::Deposit { to: id, amount };
        proof {
            lemma_full_sum_fits(self@.log, id);
            assert forall|a: u64|
                txn_touches(t, a) implies i64::MIN <= sum_balance(old(self)@.log, a)
                + #[trigger] txn_delta(t, a) <= i64::MAX by {};
            lemma_prefix_fit_push(self@.log, t);
            assert forall|a: u64| true implies sum_balance(old(self)@.log.push(t), a)
                == sum_balance(old(self)@.log, a) + txn_delta(t, a) by {
                lemma_sum_balance_push(old(self)@.log, t, a);
            };
        }
        self.transactions.push(t);
        Ok(())
    }

    /// Appends a Withdraw record if the account passes the mutation gate
    /// and the overdraft rule; otherwise returns that error and changes
    /// nothing.
    pub fn withdraw(&mut self, id: u64, amount: u64) -> (r: Result<(), LedgerError>)
        requires
            old(self).wf(),
            amount >= 1,
            withdraw_result(old(self)@, id, amount) is Ok ==> balance_in(old(self)@, id) - amount
                >= i64::MIN,
        ensures
            final(self).wf(),
            r == withdraw_result(old(self)@, id, amount),
            final(self)@ == withdraw_state(old(self)@, id, amount),
            r is Ok ==> balance_in(final(self)@, id) == balance_in(old(self)@, id) - amount,
            forall|a: u64| a != id ==> balance_in(final(self)@, a) == balance_in(old(self)@, a),
    {
        match self.check_mutation(id) {
            Err(e) => {
                return Err(e);
            },
            Ok(()) => {},
        }
        proof {
            assert(is_issued(old(self)@, id));
        }
        let bal = self.fold_balance(id);
        let idx = id as usize;
        proof {
            broadcast use vstd::std_specs::vec::axiom_spec_len;

            assert(self.accounts.len() == self@.accounts.len());
            assert(idx == id as int);
        }
        let flags = self.accounts[idx];
        proof {
            assert(flags == old(self)@.accounts[id as int]);
            if bal >= 0 {
                assert(bal as u64 == bal as int);
            }
        }
        if !flags.allow_overdraft && (bal < 0 || (bal as u64) < amount) {
            return Err(LedgerError::InsufficientFunds);
        }
        let t = Transaction::Withdraw { from: id, amount };
        proof {
            lemma_full_sum_fits(self@.log, id);
            assert(withdraw_result(old(self)@, id, amount) is Ok);
            assert forall|a: u64|
                txn_touches(t, a) implies i64::MIN <= sum_balance(old(self)@.log, a)
                + #[trigger] txn_delta(t, a) <= i64::MAX by {
                assert(a == id);
                assert(balance_in(old(self)@, id) - amount >= i64::MIN);
            };
            lemma_prefix_fit_push(self@.log, t);
            assert forall|a: u64| true implies sum_balance(old(self)@.log.push(t), a)
                == sum_balance(old(self)@.log, a) + txn_delta(t, a) by {
                lemma_sum_balance_push(old(self)@.log, t, a);
            };
        }
        self.transactions.push(t);
        Ok(())
    }

    /// Appends a Transfer record if source and target differ, both pass
    /// the mutation gate, and the source passes the overdraft rule;
    /// otherwise returns that error and changes nothing. On success the
    /// amount moves: the sum of the two balances is conserved and no
    /// other account's balance changes.
    pub fn transfer(&mut self, from: u64, to: u64, amount: u64) -> (r: Result<(), LedgerError>)
        requires
            old(self).wf(),
            amount >= 1,
            transfer_result(old(self)@, from, to, amount) is Ok ==> {
                &&& balance_in(old(self)@, from) - amount >= i64::MIN
                &&& balance_in(old(self)@, to) + amount <= i64::MAX
            },
        ensures
            final(self).wf(),
            r == transfer_result(old(self)@, from, to, amount),
            final(self)@ == transfer_state(old(self)@, from, to, amount),
            r is Ok ==> balance_in(final(self)@, from) == balance_in(old(self)@, from) - amount,
            r is Ok ==> balance_in(final(self)@, to) == balance_in(old(self)@, to) + amount,
            balance_in(final(self)@, from) + balance_in(final(self)@, to) == balance_in(
                old(self)@,
                from,
            ) + balance_in(old(self)@, to),
            forall|a: u64|
                a != from && a != to ==> balance_in(final(self)@, a) == balance_in(old(self)@, a),
    {
        if from == to {
            return Err(LedgerError::InvalidTransfer);
        }
        match self.check_mutation(from) {
            Err(e) => {
                return Err(e);
            },
            Ok(()) => {},
        }
        match self.check_mutation(to) {
            Err(e) => {
                return Err(e);
            },
            Ok(()) => {},
        }
        proof {
            assert(is_issued(old(self)@, from));
        }
        let bal = self.fold_balance(from);
        let idx = from as usize;
        proof {
            broadcast use vstd::std_specs::vec::axiom_spec_len;

            assert(self.accounts.len() == self@.accounts.len());
            assert(idx == from as int);
        }
        let flags = self.accounts[idx];
        proof {
            assert(flags == old(self)@.accounts[from as int]);
            if bal >= 0 {
                assert(bal as u64 == bal as int);
            }
        }
        if !flags.allow_overdraft && (bal < 0 || (bal as u64) < amount) {
            return Err(LedgerError::InsufficientFunds);
        }
        let t = Transaction::Transfer { from, to, amount };
        proof {
            lemma_full_sum_fits(self@.log, from);
            lemma_full_sum_fits(self@.log, to);
            assert(transfer_result(old(self)@, from, to, amount) is Ok);
            assert forall|a: u64|
                txn_touches(t, a) implies i64::MIN <= sum_balance(old(self)@.log, a)
                + #[trigger] txn_delta(t, a) <= i64::MAX by {
                assert(a == from || a == to);
                assert(balance_in(old(self)@, from) - amount >= i64::MIN);
                assert(balance_in(old(self)@, to) + amount <= i64::MAX);
            };
            lemma_prefix_fit_push(self@.log, t);
            assert forall|a: u64| true implies sum_balance(old(self)@.log.push(t), a)
                == sum_balance(old(self)@.log, a) + txn_delta(t, a) by {
                lemma_sum_balance_push(old(self)@.log, t, a);
            };
        }
        self.transactions.push(t);
        Ok(())
    }

    /// Sets the frozen flag on an issued, non-closed account. Freezing an
    /// already-frozen account succeeds and changes nothing further.
    pub fn freeze(&mut self, id: u64) -> (r: Result<(), LedgerError>)
        requires
            old(self).wf(),
        ensures
            final(self).wf(),
            r == freeze_result(old(self)@, id),
            final(self)@ == freeze_state(old(self)@, id),
            forall|a: u64| balance_in(final(self)@, a) == balance_in(old(self)@, a),
    {
        if id >= self.accounts.len() as u64 {
            return Err(LedgerError::AccountNotFound);
        }
        let mut flags = self.accounts[id as usize];
        if flags.closed {
            return Err(LedgerError::AccountClosed);
        }
        flags.frozen = true;
        self.accounts.set(id as usize, flags);
        Ok(())
    }

    /// Clears the frozen flag on an issued, non-closed account, restoring
    /// normal operation.
    pub fn unfreeze(&mut self, id: u64) -> (r: Result<(), LedgerError>)
        requires
            old(self).wf(),
        ensures
            final(self).wf(),
            r == freeze_result(old(self)@, id),
            final(self)@ == unfreeze_state(old(self)@, id),
            forall|a: u64| balance_in(final(self)@, a) == balance_in(old(self)@, a),
    {
        if id >= self.accounts.len() as u64 {
            return Err(LedgerError::AccountNotFound);
        }
        let mut flags = self.accounts[id as usize];
        if flags.closed {
            return Err(LedgerError::AccountClosed);
        }
        flags.frozen = false;
        self.accounts.set(id as usize, flags);
        Ok(())
    }

    /// Marks an issued, not-yet-closed account closed, permanently: no
    /// further mutation is permitted, but the balance stays queryable,
    /// and unchanged, for audit.
    pub fn close(&mut self, id: u64) -> (r: Result<(), LedgerError>)
        requires
            old(self).wf(),
        ensures
            final(self).wf(),
            r == close_result(old(self)@, id),
            final(self)@ == close_state(old(self)@, id),
            forall|a: u64| balance_in(final(self)@, a) == balance_in(old(self)@, a),
    {
        if id >= self.accounts.len() as u64 {
            return Err(LedgerError::AccountNotFound);
        }
        let mut flags = self.accounts[id as usize];
        if flags.closed {
            return Err(LedgerError::AccountClosed);
        }
        flags.closed = true;
        self.accounts.set(id as usize, flags);
        Ok(())
    }

    /// Derives the balance of `id` by folding the full transaction log:
    /// the returned value is exactly the signed sum of the account's
    /// contributions. Fails only for an identifier never issued.
    pub fn balance(&self, id: u64) -> (r: Result<i64, LedgerError>)
        requires
            self.wf(),
        ensures
            r is Ok <==> is_issued(self@, id),
            !is_issued(self@, id) ==> r == Err::<i64, LedgerError>(LedgerError::AccountNotFound),
            r matches Ok(b) ==> b as int == balance_in(self@, id),
    {
        if id >= self.accounts.len() as u64 {
            return Err(LedgerError::AccountNotFound);
        }
        Ok(self.fold_balance(id))
    }
}

} // verus!
