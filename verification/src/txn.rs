//! Transactions, error kinds, and the signed-sum balance derivation.

use vstd::prelude::*;

verus! {

/// One immutable record in the append-only transaction log.
///
/// Balances are never stored: they are always the signed sum of a log
/// filtered to one account, so the log is the single source of truth.
#[derive(Clone, Copy, PartialEq, Eq, Structural, Debug)]
pub enum Transaction {
    Deposit { to: u64, amount: u64 },
    Withdraw { from: u64, amount: u64 },
    Transfer { from: u64, to: u64, amount: u64 },
}

/// Every way an operation on the ledger can fail.
#[derive(Clone, Copy, PartialEq, Eq, Structural, Debug)]
pub enum LedgerError {
    /// The identifier was never issued by `open`.
    AccountNotFound,
    /// The account has been closed; no further mutation is permitted.
    AccountClosed,
    /// The account is frozen; balance-affecting operations are rejected.
    AccountFrozen,
    /// The deduction would drive the balance of an account without
    /// overdraft permission below zero.
    InsufficientFunds,
    /// A transfer named the same account as both source and target.
    InvalidTransfer,
}

/// Per-account status: lifecycle flags plus the overdraft permission
/// fixed when the account was opened.
#[derive(Clone, Copy, PartialEq, Eq, Structural, Debug)]
pub struct AccountFlags {
    pub frozen: bool,
    pub closed: bool,
    pub allow_overdraft: bool,
}

/// The signed contribution of one transaction to the balance of `id`.
pub open spec fn txn_delta(t: Transaction, id: u64) -> int {
    match t {
        Transaction::Deposit { to, amount } => if to == id {
            amount as int
        } else {
            0
        },
        Transaction::Withdraw { from, amount } => if from == id {
            -(amount as int)
        } else {
            0
        },
        Transaction::Transfer { from, to, amount } => if from == id {
            -(amount as int)
        } else if to == id {
            amount as int
        } else {
            0
        },
    }
}

/// Whether `t` names `id` as source or target.
pub open spec fn txn_touches(t: Transaction, id: u64) -> bool {
    match t {
        Transaction::Deposit { to, .. } => to == id,
        Transaction::Withdraw { from, .. } => from == id,
        Transaction::Transfer { from, to, .. } => from == id || to == id,
    }
}

/// Whether every account `t` names was issued, i.e. lies below `n`.
pub open spec fn txn_issued(t: Transaction, n: nat) -> bool {
    match t {
        Transaction::Deposit { to, .. } => to < n,
        Transaction::Withdraw { from, .. } => from < n,
        Transaction::Transfer { from, to, .. } => from < n && to < n,
    }
}

/// The amount a transaction moves.
pub open spec fn txn_amount(t: Transaction) -> u64 {
    match t {
        Transaction::Deposit { amount, .. } => amount,
        Transaction::Withdraw { amount, .. } => amount,
        Transaction::Transfer { amount, .. } => amount,
    }
}

/// The balance of `id`: the signed sum of its contributions over the
/// whole transaction log.
pub open spec fn sum_balance(log: Seq<Transaction>, id: u64) -> int
    decreases log.len(),
{
    if log.len() == 0 {
        0
    } else {
        sum_balance(log.drop_last(), id) + txn_delta(log.last(), id)
    }
}

/// Appending one transaction changes each balance by exactly that
/// transaction's contribution.
pub proof fn lemma_sum_balance_push(log: Seq<Transaction>, t: Transaction, id: u64)
    ensures
        sum_balance(log.push(t), id) == sum_balance(log, id) + txn_delta(t, id),
{
    assert(log.push(t).drop_last() =~= log);
}

/// Extending a prefix by one transaction adds that transaction's
/// contribution to the prefix sum.
pub proof fn lemma_sum_balance_prefix_step(log: Seq<Transaction>, i: int, id: u64)
    requires
        0 <= i < log.len(),
    ensures
        sum_balance(log.subrange(0, i + 1), id) == sum_balance(log.subrange(0, i), id)
            + txn_delta(log[i], id),
{
    let pre = log.subrange(0, i + 1);
    assert(pre.drop_last() =~= log.subrange(0, i));
}

/// An account that no transaction in the log touches has balance zero.
pub proof fn lemma_untouched_balance_zero(log: Seq<Transaction>, id: u64)
    requires
        forall|i: int| 0 <= i < log.len() ==> !txn_touches(#[trigger] log[i], id),
    ensures
        sum_balance(log, id) == 0,
    decreases log.len(),
{
    if log.len() > 0 {
        lemma_untouched_balance_zero(log.drop_last(), id);
    }
}

/// Every per-account prefix sum of the log fits in a signed 64-bit
/// machine word, so the fold that derives a balance cannot overflow.
pub open spec fn prefix_sums_fit(log: Seq<Transaction>) -> bool {
    forall|id: u64, i: int|
        0 <= i <= log.len() ==> i64::MIN <= #[trigger] sum_balance(log.subrange(0, i), id)
            <= i64::MAX
}

/// The sum over the whole log is itself a prefix sum, so it fits.
pub proof fn lemma_full_sum_fits(log: Seq<Transaction>, id: u64)
    requires
        prefix_sums_fit(log),
    ensures
        i64::MIN <= sum_balance(log, id) <= i64::MAX,
{
    assert(log.subrange(0, log.len() as int) =~= log);
    assert(i64::MIN <= sum_balance(log.subrange(0, log.len() as int), id) <= i64::MAX);
}

/// Prefix sums keep fitting when one transaction is appended, as long as
/// the new full sums of the accounts it touches stay in range.
pub proof fn lemma_prefix_fit_push(log: Seq<Transaction>, t: Transaction)
    requires
        prefix_sums_fit(log),
        forall|id: u64|
            txn_touches(t, id) ==> i64::MIN <= sum_balance(log, id) + #[trigger] txn_delta(t, id)
                <= i64::MAX,
    ensures
        prefix_sums_fit(log.push(t)),
{
    let l2 = log.push(t);
    assert forall|id: u64, i: int|
        0 <= i <= l2.len() implies i64::MIN <= #[trigger] sum_balance(l2.subrange(0, i), id)
        <= i64::MAX by {
        if i <= log.len() {
            assert(l2.subrange(0, i) =~= log.subrange(0, i));
        } else {
            assert(l2.subrange(0, i) =~= l2);
            assert(log.subrange(0, log.len() as int) =~= log);
            lemma_sum_balance_push(log, t, id);
            if !txn_touches(t, id) {
                assert(txn_delta(t, id) == 0);
            }
        }
    }
}

} // verus!
