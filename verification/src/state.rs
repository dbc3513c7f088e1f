//! The mathematical model of the ledger: an abstract state, one transition
//! function per operation, and the invariants the transitions preserve.

use vstd::prelude::*;
use crate::txn::{AccountFlags, LedgerError, Transaction, sum_balance, txn_amount, txn_issued};

verus! {

/// The abstract state of a ledger: the status of every issued account
/// (the account with identifier `id` is `accounts[id]`) and the
/// append-only transaction log.
#[verifier::ext_equal]
pub struct BankState {
    pub accounts: Seq<AccountFlags>,
    pub log: Seq<Transaction>,
}

/// One ledger operation, fully resolved to account identifiers.
#[derive(Clone, Copy, PartialEq, Eq, Structural, Debug)]
pub enum Op {
    Open { allow_overdraft: bool },
    Deposit { id: u64, amount: u64 },
    Withdraw { id: u64, amount: u64 },
    Transfer { from: u64, to: u64, amount: u64 },
    Freeze { id: u64 },
    Unfreeze { id: u64 },
    Close { id: u64 },
}

/// Whether `id` was ever issued by `open`: identifiers are handed out
/// sequentially from zero and never reused.
pub open spec fn is_issued(s: BankState, id: u64) -> bool {
    id < s.accounts.len()
}

/// The derived balance of `id`: the signed sum of its contributions over
/// the full log.
pub open spec fn balance_in(s: BankState, id: u64) -> int {
    sum_balance(s.log, id)
}

/// The check every mutating operation applies to an account it names,
/// in this order: the account must have been issued, must not be closed,
/// and must not be frozen.
pub open spec fn mutation_gate(s: BankState, id: u64) -> Result<(), LedgerError> {
    if !is_issued(s, id) {
        Err(LedgerError::AccountNotFound)
    } else if s.accounts[id as int].closed {
        Err(LedgerError::AccountClosed)
    } else if s.accounts[id as int].frozen {
        Err(LedgerError::AccountFrozen)
    } else {
        Ok(())
    }
}

/// The overdraft rule for deducting `amount` from `id`: an account opened
/// without overdraft permission may never go below zero; an account with
/// permission may.
pub open spec fn funds_gate(s: BankState, id: u64, amount: u64) -> Result<(), LedgerError> {
    if !s.accounts[id as int].allow_overdraft && balance_in(s, id) - amount < 0 {
        Err(LedgerError::InsufficientFunds)
    } else {
        Ok(())
    }
}

/// The state after `open`: one fresh account, unfrozen, not closed, with
/// the overdraft permission fixed for its lifetime. The log is untouched.
pub open spec fn open_state(s: BankState, allow_overdraft: bool) -> BankState {
    BankState {
        accounts: s.accounts.push(
            AccountFlags { frozen: false, closed: false, allow_overdraft },
        ),
        log: s.log,
    }
}

/// The identifier `open` issues: the next in the sequence, strictly above
/// every identifier issued before.
pub open spec fn open_id(s: BankState) -> u64 {
    s.accounts.len() as u64
}

/// Whether `deposit` succeeds, and with which error it fails.
pub open spec fn deposit_result(s: BankState, id: u64, amount: u64) -> Result<(), LedgerError> {
    mutation_gate(s, id)
}

/// The state after `deposit`: on success one Deposit record is appended;
/// on failure nothing changes.
pub open spec fn deposit_state(s: BankState, id: u64, amount: u64) -> BankState {
    if deposit_result(s, id, amount) is Ok {
        BankState { accounts: s.accounts, log: s.log.push(Transaction::Deposit { to: id, amount }) }
    } else {
        s
    }
}

/// Whether `withdraw` succeeds, and with which error it fails: the
/// mutation gate first, then the overdraft rule.
pub open spec fn withdraw_result(s: BankState, id: u64, amount: u64) -> Result<(), LedgerError> {
    match mutation_gate(s, id) {
        Err(e) => Err(e),
        Ok(()) => funds_gate(s, id, amount),
    }
}

/// The state after `withdraw`: on success one Withdraw record is
/// appended; on failure nothing changes.
pub open spec fn withdraw_state(s: BankState, id: u64, amount: u64) -> BankState {
    if withdraw_result(s, id, amount) is Ok {
        BankState {
            accounts: s.accounts,
            log: s.log.push(Transaction::Withdraw { from: id, amount }),
        }
    } else {
        s
    }
}

/// Whether `transfer` succeeds, and with which error it fails: source and
/// target must differ, then the source's mutation gate, then the
/// target's, then the overdraft rule on the source.
pub open spec fn transfer_result(s: BankState, from: u64, to: u64, amount: u64) -> Result<
    (),
    LedgerError,
> {
    if from == to {
        Err(LedgerError::InvalidTransfer)
    } else {
        match mutation_gate(s, from) {
            Err(e) => Err(e),
            Ok(()) => match mutation_gate(s, to) {
                Err(e) => Err(e),
                Ok(()) => funds_gate(s, from, amount),
            },
        }
    }
}

/// The state after `transfer`: on success one Transfer record is
/// appended; on failure nothing changes.
pub open spec fn transfer_state(s: BankState, from: u64, to: u64, amount: u64) -> BankState {
    if transfer_result(s, from, to, amount) is Ok {
        BankState {
            accounts: s.accounts,
            log: s.log.push(Transaction::Transfer { from, to, amount }),
        }
    } else {
        s
    }
}

/// Whether `freeze` or `unfreeze` succeeds: the account must exist and
/// not be closed. Freezing a frozen account (or unfreezing an unfrozen
/// one) succeeds and changes nothing.
pub open spec fn freeze_result(s: BankState, id: u64) -> Result<(), LedgerError> {
    if !is_issued(s, id) {
        Err(LedgerError::AccountNotFound)
    } else if s.accounts[id as int].closed {
        Err(LedgerError::AccountClosed)
    } else {
        Ok(())
    }
}

/// The state after `freeze`: the frozen flag is set; the log and every
/// other account are untouched.
pub open spec fn freeze_state(s: BankState, id: u64) -> BankState {
    if freeze_result(s, id) is Ok {
        BankState {
            accounts: s.accounts.update(
                id as int,
                AccountFlags { frozen: true, ..s.accounts[id as int] },
            ),
            log: s.log,
        }
    } else {
        s
    }
}

/// The state after `unfreeze`: the frozen flag is cleared.
pub open spec fn unfreeze_state(s: BankState, id: u64) -> BankState {
    if freeze_result(s, id) is Ok {
        BankState {
            accounts: s.accounts.update(
                id as int,
                AccountFlags { frozen: false, ..s.accounts[id as int] },
            ),
            log: s.log,
        }
    } else {
        s
    }
}

/// Whether `close` succeeds: the account must exist and not already be
/// closed.
pub open spec fn close_result(s: BankState, id: u64) -> Result<(), LedgerError> {
    freeze_result(s, id)
}

/// The state after `close`: the closed flag is set, permanently; the log
/// is untouched, so the balance stays queryable and unchanged.
pub open spec fn close_state(s: BankState, id: u64) -> BankState {
    if close_result(s, id) is Ok {
        BankState {
            accounts: s.accounts.update(
                id as int,
                AccountFlags { closed: true, ..s.accounts[id as int] },
            ),
            log: s.log,
        }
    } else {
        s
    }
}

/// The state after one operation, whichever it is.
pub open spec fn apply_op(s: BankState, op: Op) -> BankState {
    match op {
        Op::Open { allow_overdraft } => open_state(s, allow_overdraft),
        Op::Deposit { id, amount } => deposit_state(s, id, amount),
        Op::Withdraw { id, amount } => withdraw_state(s, id, amount),
        Op::Transfer { from, to, amount } => transfer_state(s, from, to, amount),
        Op::Freeze { id } => freeze_state(s, id),
        Op::Unfreeze { id } => unfreeze_state(s, id),
        Op::Close { id } => close_state(s, id),
    }
}

/// Whether one operation succeeds (`open` always does).
pub open spec fn op_result(s: BankState, op: Op) -> Result<(), LedgerError> {
    match op {
        Op::Open { .. } => Ok(()),
        Op::Deposit { id, amount } => deposit_result(s, id, amount),
        Op::Withdraw { id, amount } => withdraw_result(s, id, amount),
        Op::Transfer { from, to, amount } => transfer_result(s, from, to, amount),
        Op::Freeze { id } => freeze_result(s, id),
        Op::Unfreeze { id } => freeze_result(s, id),
        Op::Close { id } => close_result(s, id),
    }
}

/// Whether an operation names `id` in a balance-affecting or
/// status-changing role. `open` names nobody.
pub open spec fn op_touches(op: Op, id: u64) -> bool {
    match op {
        Op::Open { .. } => false,
        Op::Deposit { id: t, .. } => t == id,
        Op::Withdraw { id: f, .. } => f == id,
        Op::Transfer { from, to, .. } => from == id || to == id,
        Op::Freeze { id: t } => t == id,
        Op::Unfreeze { id: t } => t == id,
        Op::Close { id: t } => t == id,
    }
}

/// Whether an operation carries only positive amounts, as the data model
/// demands of every transaction.
pub open spec fn op_wf(op: Op) -> bool {
    match op {
        Op::Open { .. } => true,
        Op::Deposit { amount, .. } => amount >= 1,
        Op::Withdraw { amount, .. } => amount >= 1,
        Op::Transfer { amount, .. } => amount >= 1,
        Op::Freeze { .. } => true,
        Op::Unfreeze { .. } => true,
        Op::Close { .. } => true,
    }
}

/// The structural invariant of every reachable ledger state: every logged
/// transaction names only issued accounts and moves a positive amount.
pub open spec fn ledger_inv(s: BankState) -> bool {
    &&& forall|i: int| 0 <= i < s.log.len() ==> txn_issued(#[trigger] s.log[i], s.accounts.len())
    &&& forall|i: int| 0 <= i < s.log.len() ==> txn_amount(#[trigger] s.log[i]) >= 1
}

/// No account that was opened without overdraft permission is below zero.
pub open spec fn overdraft_safe(s: BankState) -> bool {
    forall|id: u64|
        is_issued(s, id) && !s.accounts[id as int].allow_overdraft ==> #[trigger] balance_in(s, id)
            >= 0
}

} // verus!
