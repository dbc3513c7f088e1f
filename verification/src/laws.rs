//! The laws of the ledger, stated over the abstract semantics and proved
//! once and for all: conservation under transfer, monotonic issuance,
//! closed-account immutability, frozen-account rejection, and the
//! overdraft gate.

use vstd::prelude::*;
use crate::state::{
    BankState, Op, apply_op, balance_in, deposit_result, is_issued, ledger_inv, mutation_gate,
    op_result, op_touches, op_wf, open_id, open_state, overdraft_safe, transfer_result,
    transfer_state, unfreeze_state, withdraw_result,
};
use crate::txn::{
    LedgerError, Transaction, lemma_sum_balance_push, lemma_untouched_balance_zero, txn_issued,
    txn_touches,
};

verus! {

/// Conservation under transfer: whatever a transfer does — succeed or
/// fail — the sum of the source and target balances is unchanged; the
/// amount moves, nothing is created or destroyed.
pub proof fn lemma_transfer_conserves(s: BankState, from: u64, to: u64, amount: u64)
    ensures
        balance_in(transfer_state(s, from, to, amount), from) + balance_in(
            transfer_state(s, from, to, amount),
            to,
        ) == balance_in(s, from) + balance_in(s, to),
{
    if transfer_result(s, from, to, amount) is Ok {
        let t = Transaction::Transfer { from, to, amount };
        lemma_sum_balance_push(s.log, t, from);
        lemma_sum_balance_push(s.log, t, to);
    }
}

/// Monotonic issuance: the identifier the next `open` returns is strictly
/// greater than every identifier issued so far, and the new account is
/// issued with balance zero.
pub proof fn lemma_open_issues_fresh(s: BankState, allow_overdraft: bool)
    requires
        ledger_inv(s),
        s.accounts.len() <= u64::MAX,
    ensures
        forall|prev: u64| is_issued(s, prev) ==> prev < open_id(s),
        is_issued(open_state(s, allow_overdraft), open_id(s)),
        balance_in(open_state(s, allow_overdraft), open_id(s)) == 0,
{
    let id = open_id(s);
    assert forall|k: int| 0 <= k < s.log.len() implies !txn_touches(#[trigger] s.log[k], id) by {
        assert(txn_issued(s.log[k], s.accounts.len()));
    };
    lemma_untouched_balance_zero(s.log, id);
}

/// Identifiers are never withdrawn: an account issued before an operation
/// is still issued after it, whatever the operation was.
pub proof fn lemma_issued_persists(s: BankState, op: Op, id: u64)
    requires
        is_issued(s, id),
    ensures
        is_issued(apply_op(s, op), id),
{
}

/// A closed account stays closed, whatever operation is applied.
pub proof fn lemma_closed_persists(s: BankState, op: Op, id: u64)
    requires
        is_issued(s, id),
        s.accounts[id as int].closed,
    ensures
        apply_op(s, op).accounts[id as int].closed,
{
}

/// Closed-account immutability: once an account is closed, every
/// operation that names it — deposit, withdraw, transfer on either side,
/// freeze, unfreeze, or another close — fails and leaves the whole state,
/// and in particular the account's queryable balance, unchanged.
pub proof fn lemma_closed_account_immutable(s: BankState, op: Op, id: u64)
    requires
        is_issued(s, id),
        s.accounts[id as int].closed,
        op_touches(op, id),
    ensures
        op_result(s, op) is Err,
        apply_op(s, op) == s,
        balance_in(apply_op(s, op), id) == balance_in(s, id),
{
}

/// Frozen-account rejection: while an account is frozen, every
/// balance-affecting operation that names it fails and changes nothing;
/// and when the frozen check is the first gate the operation reaches, the
/// error is AccountFrozen itself.
pub proof fn lemma_frozen_account_rejected(s: BankState, op: Op, id: u64)
    requires
        is_issued(s, id),
        s.accounts[id as int].frozen,
        !s.accounts[id as int].closed,
        op_touches(op, id),
        op matches Op::Deposit { .. } || op matches Op::Withdraw { .. } || op matches Op::Transfer {
            ..
        },
    ensures
        op_result(s, op) is Err,
        apply_op(s, op) == s,
        ((op matches Op::Deposit { .. }) || (op matches Op::Withdraw { .. })) ==> op_result(s, op)
            == Err::<(), LedgerError>(LedgerError::AccountFrozen),
        (op matches Op::Transfer { from, to, .. } && from != to && from == id) ==> op_result(s, op)
            == Err::<(), LedgerError>(LedgerError::AccountFrozen),
        (op matches Op::Transfer { from, to, .. } && from != to && to == id && mutation_gate(
            s,
            from,
        ) is Ok) ==> op_result(s, op) == Err::<(), LedgerError>(
            LedgerError::AccountFrozen,
        ),
{
}

/// Unfreezing restores normal operation: after `unfreeze`, the account
/// passes the mutation gate again, so a deposit on it succeeds.
pub proof fn lemma_unfreeze_restores(s: BankState, id: u64, amount: u64)
    requires
        is_issued(s, id),
        !s.accounts[id as int].closed,
    ensures
        mutation_gate(unfreeze_state(s, id), id) is Ok,
        deposit_result(unfreeze_state(s, id), id, amount) is Ok,
{
}

/// One step of the overdraft gate: an operation with positive amounts,
/// applied to a structurally sound state where no overdraft-forbidden
/// account is negative, yields a state with both properties again.
pub proof fn lemma_overdraft_safe_step(s: BankState, op: Op)
    requires
        ledger_inv(s),
        op_wf(op),
        overdraft_safe(s),
    ensures
        ledger_inv(apply_op(s, op)),
        overdraft_safe(apply_op(s, op)),
{
    let s2 = apply_op(s, op);
    match op {
        Op::Open { allow_overdraft } => {
            assert forall|id: u64|
                is_issued(s2, id) && !s2.accounts[id as int].allow_overdraft implies #[trigger]
            balance_in(s2, id) >= 0 by {
                if id < s.accounts.len() {
                    assert(balance_in(s, id) >= 0);
                } else {
                    assert forall|k: int| 0 <= k < s.log.len() implies !txn_touches(
                        #[trigger] s.log[k],
                        id,
                    ) by {
                        assert(txn_issued(s.log[k], s.accounts.len()));
                    };
                    lemma_untouched_balance_zero(s.log, id);
                }
            };
        },
        Op::Deposit { id, amount } => {
            if deposit_result(s, id, amount) is Ok {
                let t = Transaction::Deposit { to: id, amount };
                assert forall|a: u64|
                    is_issued(s2, a) && !s2.accounts[a as int].allow_overdraft implies #[trigger]
                balance_in(s2, a) >= 0 by {
                    lemma_sum_balance_push(s.log, t, a);
                    assert(balance_in(s, a) >= 0);
                };
            }
        },
        Op::Withdraw { id, amount } => {
            if withdraw_result(s, id, amount) is Ok {
                let t = Transaction::Withdraw { from: id, amount };
                assert forall|a: u64|
                    is_issued(s2, a) && !s2.accounts[a as int].allow_overdraft implies #[trigger]
                balance_in(s2, a) >= 0 by {
                    lemma_sum_balance_push(s.log, t, a);
                    assert(balance_in(s, a) >= 0);
                };
            }
        },
        Op::Transfer { from, to, amount } => {
            if transfer_result(s, from, to, amount) is Ok {
                let t = Transaction::Transfer { from, to, amount };
                assert forall|a: u64|
                    is_issued(s2, a) && !s2.accounts[a as int].allow_overdraft implies #[trigger]
                balance_in(s2, a) >= 0 by {
                    lemma_sum_balance_push(s.log, t, a);
                    assert(balance_in(s, a) >= 0);
                };
            }
        },
        Op::Freeze { id } => {
            assert forall|a: u64|
                is_issued(s2, a) && !s2.accounts[a as int].allow_overdraft implies #[trigger]
            balance_in(s2, a) >= 0 by {
                assert(balance_in(s, a) >= 0);
            };
        },
        Op::Unfreeze { id } => {
            assert forall|a: u64|
                is_issued(s2, a) && !s2.accounts[a as int].allow_overdraft implies #[trigger]
            balance_in(s2, a) >= 0 by {
                assert(balance_in(s, a) >= 0);
            };
        },
        Op::Close { id } => {
            assert forall|a: u64|
                is_issued(s2, a) && !s2.accounts[a as int].allow_overdraft implies #[trigger]
            balance_in(s2, a) >= 0 by {
                assert(balance_in(s, a) >= 0);
            };
        },
    }
}

/// The state after a whole sequence of operations.
pub open spec fn apply_ops(s: BankState, ops: Seq<Op>) -> BankState
    decreases ops.len(),
{
    if ops.len() == 0 {
        s
    } else {
        apply_op(apply_ops(s, ops.drop_last()), ops.last())
    }
}

/// The overdraft gate: starting from a sound state where no
/// overdraft-forbidden account is negative, no sequence of operations
/// with positive amounts can drive such an account's balance below zero.
pub proof fn lemma_overdraft_gate(s: BankState, ops: Seq<Op>)
    requires
        ledger_inv(s),
        overdraft_safe(s),
        forall|i: int| 0 <= i < ops.len() ==> op_wf(#[trigger] ops[i]),
    ensures
        ledger_inv(apply_ops(s, ops)),
        overdraft_safe(apply_ops(s, ops)),
    decreases ops.len(),
{
    if ops.len() > 0 {
        lemma_overdraft_gate(s, ops.drop_last());
        lemma_overdraft_safe_step(apply_ops(s, ops.drop_last()), ops.last());
    }
}

} // verus!
