//! The differential test harness: a transition generator, the precondition
//! filter that gates which candidate transitions may reach the ledger, and
//! the runner that drives one random walk against both the ledger and the
//! reference model, checking after every step that they agree.
//!
//! Account selectors in a transition are indices, resolved modulo the
//! number of open accounts at application time rather than fixed when the
//! transition was generated, so generation is state-agnostic while
//! resolution is state-aware.
//!
//! The filter checks full legality — existence, distinctness, the frozen
//! and closed flags, the overdraft rule, and that the arithmetic fits the
//! machine word — so that a transition it accepts can never be refused by
//! the ledger: a refusal after acceptance would be a harness defect, and
//! the runner reports it as a failure instead of suppressing it.

use vstd::prelude::*;
use crate::ledger::Bank;
use crate::model::{ModelAccount, RefModel};
use crate::state::{BankState, balance_in, deposit_result, freeze_result, is_issued, transfer_result, withdraw_result};
use crate::txn::{lemma_untouched_balance_zero, txn_issued, txn_touches};

verus! {

/// Transaction amounts are sampled in `1 ..= AMOUNT_CAP`, keeping them
/// positive as the data model demands.
pub const AMOUNT_CAP: u64 = 1000;

/// Four raw random words, enough to generate one candidate transition:
/// one picks the operation kind, two are account selectors, one the
/// amount. Whatever randomness the caller has is fed in through these.
#[derive(Clone, Copy, PartialEq, Eq, Structural, Debug)]
pub struct RawStep {
    pub kind: u64,
    pub sel_a: u64,
    pub sel_b: u64,
    pub amount: u64,
}

/// One candidate operation proposed by the generator. `sel` fields are
/// account selectors: indices resolved against the current account list
/// at application time.
#[derive(Clone, Copy, PartialEq, Eq, Structural, Debug)]
pub enum Transition {
    Open { allow_overdraft: bool },
    Deposit { sel: u64, amount: u64 },
    Withdraw { sel: u64, amount: u64 },
    Transfer { from_sel: u64, to_sel: u64, amount: u64 },
    Freeze { sel: u64 },
    Unfreeze { sel: u64 },
    Close { sel: u64 },
}

/// Resolves an account selector against `n_accounts` open accounts.
pub open spec fn resolve_sel(sel: u64, n_accounts: int) -> u64
    recommends
        1 <= n_accounts <= u64::MAX,
{
    (sel as int % n_accounts) as u64
}

/// The transition the generator builds from four raw random words: one
/// picks the operation kind, two are account selectors, one the amount.
pub open spec fn spec_generate(kind_raw: u64, sel_a: u64, sel_b: u64, amount_raw: u64) -> Transition {
    let kind = kind_raw % 7;
    let amount = (amount_raw % AMOUNT_CAP + 1) as u64;
    if kind == 0 {
        Transition::Open { allow_overdraft: sel_a % 2 == 0 }
    } else if kind == 1 {
        Transition::Deposit { sel: sel_a, amount }
    } else if kind == 2 {
        Transition::Withdraw { sel: sel_a, amount }
    } else if kind == 3 {
        Transition::Transfer { from_sel: sel_a, to_sel: sel_b, amount }
    } else if kind == 4 {
        Transition::Freeze { sel: sel_a }
    } else if kind == 5 {
        Transition::Unfreeze { sel: sel_a }
    } else {
        Transition::Close { sel: sel_a }
    }
}

/// Builds one candidate transition from four raw random words. Every
/// amount it produces lies in `1 ..= AMOUNT_CAP`.
pub fn generate(kind_raw: u64, sel_a: u64, sel_b: u64, amount_raw: u64) -> (t: Transition)
    ensures
        t == spec_generate(kind_raw, sel_a, sel_b, amount_raw),
{
    let kind = kind_raw % 7;
    let amount = amount_raw % AMOUNT_CAP + 1;
    if kind == 0 {
        Transition::Open { allow_overdraft: sel_a % 2 == 0 }
    } else if kind == 1 {
        Transition::Deposit { sel: sel_a, amount }
    } else if kind == 2 {
        Transition::Withdraw { sel: sel_a, amount }
    } else if kind == 3 {
        Transition::Transfer { from_sel: sel_a, to_sel: sel_b, amount }
    } else if kind == 4 {
        Transition::Freeze { sel: sel_a }
    } else if kind == 5 {
        Transition::Unfreeze { sel: sel_a }
    } else {
        Transition::Close { sel: sel_a }
    }
}

/// The precondition filter's verdict on one candidate transition against
/// the reference model's current state: accepted transitions are exactly
/// those the ledger is obliged to accept, including the machine-word
/// bounds on the balance arithmetic.
pub open spec fn spec_accepts(m: Seq<ModelAccount>, t: Transition) -> bool {
    match t {
        Transition::Open { .. } => true,
        Transition::Deposit { sel, amount } => {
            &&& m.len() >= 1
            &&& amount >= 1
            &&& {
                let a = m[resolve_sel(sel, m.len() as int) as int];
                &&& !a.closed
                &&& !a.frozen
                &&& a.balance + amount <= i64::MAX
            }
        },
        Transition::Withdraw { sel, amount } => {
            &&& m.len() >= 1
            &&& amount >= 1
            &&& {
                let a = m[resolve_sel(sel, m.len() as int) as int];
                &&& !a.closed
                &&& !a.frozen
                &&& if a.allow_overdraft {
                    a.balance - amount >= i64::MIN
                } else {
                    a.balance - amount >= 0
                }
            }
        },
        Transition::Transfer { from_sel, to_sel, amount } => {
            &&& m.len() >= 1
            &&& amount >= 1
            &&& {
                let from = resolve_sel(from_sel, m.len() as int);
                let to = resolve_sel(to_sel, m.len() as int);
                let af = m[from as int];
                let at = m[to as int];
                &&& from != to
                &&& !af.closed
                &&& !af.frozen
                &&& !at.closed
                &&& !at.frozen
                &&& at.balance + amount <= i64::MAX
                &&& if af.allow_overdraft {
                    af.balance - amount >= i64::MIN
                } else {
                    af.balance - amount >= 0
                }
            }
        },
        Transition::Freeze { sel } => {
            &&& m.len() >= 1
            &&& !m[resolve_sel(sel, m.len() as int) as int].closed
        },
        Transition::Unfreeze { sel } => {
            &&& m.len() >= 1
            &&& !m[resolve_sel(sel, m.len() as int) as int].closed
        },
        Transition::Close { sel } => {
            &&& m.len() >= 1
            &&& !m[resolve_sel(sel, m.len() as int) as int].closed
        },
    }
}

/// The precondition filter: decides, against the reference model's
/// current state, whether a candidate transition is legal to apply.
/// Rejected transitions are discarded and must never reach the ledger.
pub fn accepts(model: &RefModel, t: &Transition) -> (r: bool)
    ensures
        r == spec_accepts(model@, *t),
{
    let n = model.account_count();
    match *t {
        Transition::Open { .. } => true,
        Transition::Deposit { sel, amount } => {
            if n == 0 || amount == 0 {
                return false;
            }
            let a = model.account(sel % n);
            !a.closed && !a.frozen && (a.balance as i128) + (amount as i128) <= (i64::MAX as i128)
        },
        Transition::Withdraw { sel, amount } => {
            if n == 0 || amount == 0 {
                return false;
            }
            let a = model.account(sel % n);
            if a.closed || a.frozen {
                return false;
            }
            if a.allow_overdraft {
                (a.balance as i128) - (amount as i128) >= (i64::MIN as i128)
            } else {
                (a.balance as i128) - (amount as i128) >= 0
            }
        },
        Transition::Transfer { from_sel, to_sel, amount } => {
            if n == 0 || amount == 0 {
                return false;
            }
            let from = from_sel % n;
            let to = to_sel % n;
            if from == to {
                return false;
            }
            let af = model.account(from);
            let at = model.account(to);
            if af.closed || af.frozen || at.closed || at.frozen {
                return false;
            }
            if (at.balance as i128) + (amount as i128) > (i64::MAX as i128) {
                return false;
            }
            if af.allow_overdraft {
                (af.balance as i128) - (amount as i128) >= (i64::MIN as i128)
            } else {
                (af.balance as i128) - (amount as i128) >= 0
            }
        },
        Transition::Freeze { sel } => {
            if n == 0 {
                return false;
            }
            !model.account(sel % n).closed
        },
        Transition::Unfreeze { sel } => {
            if n == 0 {
                return false;
            }
            !model.account(sel % n).closed
        },
        Transition::Close { sel } => {
            if n == 0 {
                return false;
            }
            !model.account(sel % n).closed
        },
    }
}

/// The observable equivalence the runner asserts after every step: both
/// sides know the same accounts and report the same balance for each.
pub open spec fn balances_agree(b: BankState, m: Seq<ModelAccount>) -> bool {
    &&& b.accounts.len() == m.len()
    &&& forall|id: u64| is_issued(b, id) ==> m[id as int].balance == #[trigger] balance_in(b, id)
}

/// The runner's full invariant: balances agree, and the model's copy of
/// every status flag matches the ledger's.
pub open spec fn agree(b: BankState, m: Seq<ModelAccount>) -> bool {
    &&& b.accounts.len() == m.len()
    &&& forall|id: u64|
        is_issued(b, id) ==> {
            &&& m[id as int].balance == #[trigger] balance_in(b, id)
            &&& m[id as int].frozen == b.accounts[id as int].frozen
            &&& m[id as int].closed == b.accounts[id as int].closed
            &&& m[id as int].allow_overdraft == b.accounts[id as int].allow_overdraft
        }
}

/// The reference model's state after one accepted transition.
pub open spec fn spec_apply(m: Seq<ModelAccount>, t: Transition) -> Seq<ModelAccount>
    recommends
        spec_accepts(m, t),
{
    match t {
        Transition::Open { allow_overdraft } => m.push(
            ModelAccount { balance: 0, frozen: false, closed: false, allow_overdraft },
        ),
        Transition::Deposit { sel, amount } => {
            let id = resolve_sel(sel, m.len() as int);
            m.update(
                id as int,
                ModelAccount { balance: (m[id as int].balance + amount) as i64, ..m[id as int] },
            )
        },
        Transition::Withdraw { sel, amount } => {
            let id = resolve_sel(sel, m.len() as int);
            m.update(
                id as int,
                ModelAccount { balance: (m[id as int].balance - amount) as i64, ..m[id as int] },
            )
        },
        Transition::Transfer { from_sel, to_sel, amount } => {
            let from = resolve_sel(from_sel, m.len() as int);
            let to = resolve_sel(to_sel, m.len() as int);
            m.update(
                from as int,
                ModelAccount {
                    balance: (m[from as int].balance - amount) as i64,
                    ..m[from as int]
                },
            ).update(
                to as int,
                ModelAccount { balance: (m[to as int].balance + amount) as i64, ..m[to as int] },
            )
        },
        Transition::Freeze { sel } => {
            let id = resolve_sel(sel, m.len() as int);
            m.update(id as int, ModelAccount { frozen: true, ..m[id as int] })
        },
        Transition::Unfreeze { sel } => {
            let id = resolve_sel(sel, m.len() as int);
            m.update(id as int, ModelAccount { frozen: false, ..m[id as int] })
        },
        Transition::Close { sel } => {
            let id = resolve_sel(sel, m.len() as int);
            m.update(id as int, ModelAccount { closed: true, ..m[id as int] })
        },
    }
}

/// One step of the walk at the specification level: an accepted candidate
/// moves the model; a rejected one is discarded.
pub open spec fn model_step(m: Seq<ModelAccount>, t: Transition) -> Seq<ModelAccount> {
    if spec_accepts(m, t) {
        spec_apply(m, t)
    } else {
        m
    }
}

/// The model's state after filtering and applying the first `i`
/// candidates, starting from no accounts.
pub open spec fn model_run(cands: Seq<Transition>, i: int) -> Seq<ModelAccount>
    decreases i,
{
    if i <= 0 {
        Seq::empty()
    } else {
        model_step(model_run(cands, i - 1), cands[i - 1])
    }
}

/// Restates the runner's invariant for one pair of states, so each step
/// function can discharge it with one quantified proof.
proof fn lemma_agree_from_parts(b: BankState, m: Seq<ModelAccount>)
    requires
        b.accounts.len() == m.len(),
        forall|id: u64|
            is_issued(b, id) ==> {
                &&& m[id as int].balance == #[trigger] balance_in(b, id)
                &&& m[id as int].frozen == b.accounts[id as int].frozen
                &&& m[id as int].closed == b.accounts[id as int].closed
                &&& m[id as int].allow_overdraft == b.accounts[id as int].allow_overdraft
            },
    ensures
        agree(b, m),
{
}

/// Applies an accepted Open to both sides.
fn step_open(bank: &mut Bank, model: &mut RefModel, allow_overdraft: bool) -> (ok: bool)
    requires
        old(bank).wf(),
        agree(old(bank)@, old(model)@),
    ensures
        ok,
        final(bank).wf(),
        final(model)@ == spec_apply(old(model)@, Transition::Open { allow_overdraft }),
        agree(final(bank)@, final(model)@),
{
    let ghost b0 = bank@;
    let ghost m0 = model@;
    let _bid = bank.open(allow_overdraft);
    let _mid = model.open(allow_overdraft);
    proof {
        assert forall|a: u64| is_issued(bank@, a) implies {
            &&& model@[a as int].balance == #[trigger] balance_in(bank@, a)
            &&& model@[a as int].frozen == bank@.accounts[a as int].frozen
            &&& model@[a as int].closed == bank@.accounts[a as int].closed
            &&& model@[a as int].allow_overdraft == bank@.accounts[a as int].allow_overdraft
        } by {
            if a < b0.accounts.len() {
                assert(balance_in(b0, a) == m0[a as int].balance);
                assert(balance_in(bank@, a) == balance_in(b0, a));
            } else {
                assert(a as int == b0.accounts.len() as int);
                assert forall|k: int| 0 <= k < b0.log.len() implies !txn_touches(
                    #[trigger] b0.log[k],
                    a,
                ) by {
                    assert(txn_issued(b0.log[k], b0.accounts.len()));
                };
                lemma_untouched_balance_zero(b0.log, a);
                assert(balance_in(bank@, a) == 0);
            }
        };
        lemma_agree_from_parts(bank@, model@);
    }
    true
}

/// Applies an accepted Deposit to both sides.
fn step_deposit(bank: &mut Bank, model: &mut RefModel, sel: u64, amount: u64) -> (ok: bool)
    requires
        old(bank).wf(),
        agree(old(bank)@, old(model)@),
        spec_accepts(old(model)@, Transition::Deposit { sel, amount }),
    ensures
        ok,
        final(bank).wf(),
        final(model)@ == spec_apply(old(model)@, Transition::Deposit { sel, amount }),
        agree(final(bank)@, final(model)@),
{
    let ghost b0 = bank@;
    let ghost m0 = model@;
    let n = model.account_count();
    let id = sel % n;
    proof {
        assert(id == resolve_sel(sel, m0.len() as int));
        assert(is_issued(b0, id));
        assert(balance_in(b0, id) == m0[id as int].balance);
        assert(deposit_result(b0, id, amount) is Ok);
    }
    let res = bank.deposit(id, amount);
    match res {
        Ok(()) => {},
        Err(_) => {
            return false;
        },
    }
    model.deposit(id, amount);
    proof {
        assert forall|a: u64| is_issued(bank@, a) implies {
            &&& model@[a as int].balance == #[trigger] balance_in(bank@, a)
            &&& model@[a as int].frozen == bank@.accounts[a as int].frozen
            &&& model@[a as int].closed == bank@.accounts[a as int].closed
            &&& model@[a as int].allow_overdraft == bank@.accounts[a as int].allow_overdraft
        } by {
            assert(is_issued(b0, a));
            assert(balance_in(b0, a) == m0[a as int].balance);
        };
        lemma_agree_from_parts(bank@, model@);
    }
    true
}

/// Applies an accepted Withdraw to both sides.
fn step_withdraw(bank: &mut Bank, model: &mut RefModel, sel: u64, amount: u64) -> (ok: bool)
    requires
        old(bank).wf(),
        agree(old(bank)@, old(model)@),
        spec_accepts(old(model)@, Transition::Withdraw { sel, amount }),
    ensures
        ok,
        final(bank).wf(),
        final(model)@ == spec_apply(old(model)@, Transition::Withdraw { sel, amount }),
        agree(final(bank)@, final(model)@),
{
    let ghost b0 = bank@;
    let ghost m0 = model@;
    let n = model.account_count();
    let id = sel % n;
    proof {
        assert(id == resolve_sel(sel, m0.len() as int));
        assert(is_issued(b0, id));
        assert(balance_in(b0, id) == m0[id as int].balance);
        assert(withdraw_result(b0, id, amount) is Ok);
    }
    let res = bank.withdraw(id, amount);
    match res {
        Ok(()) => {},
        Err(_) => {
            return false;
        },
    }
    model.withdraw(id, amount);
    proof {
        assert forall|a: u64| is_issued(bank@, a) implies {
            &&& model@[a as int].balance == #[trigger] balance_in(bank@, a)
            &&& model@[a as int].frozen == bank@.accounts[a as int].frozen
            &&& model@[a as int].closed == bank@.accounts[a as int].closed
            &&& model@[a as int].allow_overdraft == bank@.accounts[a as int].allow_overdraft
        } by {
            assert(is_issued(b0, a));
            assert(balance_in(b0, a) == m0[a as int].balance);
        };
        lemma_agree_from_parts(bank@, model@);
    }
    true
}

/// Applies an accepted Transfer to both sides.
fn step_transfer(bank: &mut Bank, model: &mut RefModel, from_sel: u64, to_sel: u64, amount: u64) -> (ok:
    bool)
    requires
        old(bank).wf(),
        agree(old(bank)@, old(model)@),
        spec_accepts(old(model)@, Transition::Transfer { from_sel, to_sel, amount }),
    ensures
        ok,
        final(bank).wf(),
        final(model)@ == spec_apply(
            old(model)@,
            Transition::Transfer { from_sel, to_sel, amount },
        ),
        agree(final(bank)@, final(model)@),
{
    let ghost b0 = bank@;
    let ghost m0 = model@;
    let n = model.account_count();
    let from = from_sel % n;
    let to = to_sel % n;
    proof {
        assert(from == resolve_sel(from_sel, m0.len() as int));
        assert(to == resolve_sel(to_sel, m0.len() as int));
        assert(is_issued(b0, from));
        assert(is_issued(b0, to));
        assert(balance_in(b0, from) == m0[from as int].balance);
        assert(balance_in(b0, to) == m0[to as int].balance);
        assert(transfer_result(b0, from, to, amount) is Ok);
    }
    let res = bank.transfer(from, to, amount);
    match res {
        Ok(()) => {},
        Err(_) => {
            return false;
        },
    }
    model.transfer(from, to, amount);
    proof {
        assert forall|a: u64| is_issued(bank@, a) implies {
            &&& model@[a as int].balance == #[trigger] balance_in(bank@, a)
            &&& model@[a as int].frozen == bank@.accounts[a as int].frozen
            &&& model@[a as int].closed == bank@.accounts[a as int].closed
            &&& model@[a as int].allow_overdraft == bank@.accounts[a as int].allow_overdraft
        } by {
            assert(is_issued(b0, a));
            assert(balance_in(b0, a) == m0[a as int].balance);
        };
        lemma_agree_from_parts(bank@, model@);
    }
    true
}

/// Applies an accepted Freeze to both sides.
fn step_freeze(bank: &mut Bank, model: &mut RefModel, sel: u64) -> (ok: bool)
    requires
        old(bank).wf(),
        agree(old(bank)@, old(model)@),
        spec_accepts(old(model)@, Transition::Freeze { sel }),
    ensures
        ok,
        final(bank).wf(),
        final(model)@ == spec_apply(old(model)@, Transition::Freeze { sel }),
        agree(final(bank)@, final(model)@),
{
    let ghost b0 = bank@;
    let ghost m0 = model@;
    let n = model.account_count();
    let id = sel % n;
    proof {
        assert(id == resolve_sel(sel, m0.len() as int));
        assert(is_issued(b0, id));
        assert(balance_in(b0, id) == m0[id as int].balance);
        assert(freeze_result(b0, id) is Ok);
    }
    let res = bank.freeze(id);
    match res {
        Ok(()) => {},
        Err(_) => {
            return false;
        },
    }
    model.freeze(id);
    proof {
        assert forall|a: u64| is_issued(bank@, a) implies {
            &&& model@[a as int].balance == #[trigger] balance_in(bank@, a)
            &&& model@[a as int].frozen == bank@.accounts[a as int].frozen
            &&& model@[a as int].closed == bank@.accounts[a as int].closed
            &&& model@[a as int].allow_overdraft == bank@.accounts[a as int].allow_overdraft
        } by {
            assert(is_issued(b0, a));
            assert(balance_in(b0, a) == m0[a as int].balance);
        };
        lemma_agree_from_parts(bank@, model@);
    }
    true
}

/// Applies an accepted Unfreeze to both sides.
fn step_unfreeze(bank: &mut Bank, model: &mut RefModel, sel: u64) -> (ok: bool)
    requires
        old(bank).wf(),
        agree(old(bank)@, old(model)@),
        spec_accepts(old(model)@, Transition::Unfreeze { sel }),
    ensures
        ok,
        final(bank).wf(),
        final(model)@ == spec_apply(old(model)@, Transition::Unfreeze { sel }),
        agree(final(bank)@, final(model)@),
{
    let ghost b0 = bank@;
    let ghost m0 = model@;
    let n = model.account_count();
    let id = sel % n;
    proof {
        assert(id == resolve_sel(sel, m0.len() as int));
        assert(is_issued(b0, id));
        assert(balance_in(b0, id) == m0[id as int].balance);
        assert(freeze_result(b0, id) is Ok);
    }
    let res = bank.unfreeze(id);
    match res {
        Ok(()) => {},
        Err(_) => {
            return false;
        },
    }
    model.unfreeze(id);
    proof {
        assert forall|a: u64| is_issued(bank@, a) implies {
            &&& model@[a as int].balance == #[trigger] balance_in(bank@, a)
            &&& model@[a as int].frozen == bank@.accounts[a as int].frozen
            &&& model@[a as int].closed == bank@.accounts[a as int].closed
            &&& model@[a as int].allow_overdraft == bank@.accounts[a as int].allow_overdraft
        } by {
            assert(is_issued(b0, a));
            assert(balance_in(b0, a) == m0[a as int].balance);
        };
        lemma_agree_from_parts(bank@, model@);
    }
    true
}

/// Applies an accepted Close to both sides.
fn step_close(bank: &mut Bank, model: &mut RefModel, sel: u64) -> (ok: bool)
    requires
        old(bank).wf(),
        agree(old(bank)@, old(model)@),
        spec_accepts(old(model)@, Transition::Close { sel }),
    ensures
        ok,
        final(bank).wf(),
        final(model)@ == spec_apply(old(model)@, Transition::Close { sel }),
        agree(final(bank)@, final(model)@),
{
    let ghost b0 = bank@;
    let ghost m0 = model@;
    let n = model.account_count();
    let id = sel % n;
    proof {
        assert(id == resolve_sel(sel, m0.len() as int));
        assert(is_issued(b0, id));
        assert(balance_in(b0, id) == m0[id as int].balance);
        assert(freeze_result(b0, id) is Ok);
    }
    let res = bank.close(id);
    match res {
        Ok(()) => {},
        Err(_) => {
            return false;
        },
    }
    model.close(id);
    proof {
        assert forall|a: u64| is_issued(bank@, a) implies {
            &&& model@[a as int].balance == #[trigger] balance_in(bank@, a)
            &&& model@[a as int].frozen == bank@.accounts[a as int].frozen
            &&& model@[a as int].closed == bank@.accounts[a as int].closed
            &&& model@[a as int].allow_overdraft == bank@.accounts[a as int].allow_overdraft
        } by {
            assert(is_issued(b0, a));
            assert(balance_in(b0, a) == m0[a as int].balance);
        };
        lemma_agree_from_parts(bank@, model@);
    }
    true
}

/// Applies one filter-accepted transition to both the ledger and the
/// model. Returns whether the ledger accepted the operation; because the
/// filter checks full legality, that is always the case, and the two
/// sides still agree afterwards.
fn apply_accepted(bank: &mut Bank, model: &mut RefModel, t: Transition) -> (ok: bool)
    requires
        old(bank).wf(),
        agree(old(bank)@, old(model)@),
        spec_accepts(old(model)@, t),
    ensures
        ok,
        final(bank).wf(),
        final(model)@ == spec_apply(old(model)@, t),
        agree(final(bank)@, final(model)@),
{
    match t {
        Transition::Open { allow_overdraft } => step_open(bank, model, allow_overdraft),
        Transition::Deposit { sel, amount } => step_deposit(bank, model, sel, amount),
        Transition::Withdraw { sel, amount } => step_withdraw(bank, model, sel, amount),
        Transition::Transfer { from_sel, to_sel, amount } => step_transfer(
            bank,
            model,
            from_sel,
            to_sel,
            amount,
        ),
        Transition::Freeze { sel } => step_freeze(bank, model, sel),
        Transition::Unfreeze { sel } => step_unfreeze(bank, model, sel),
        Transition::Close { sel } => step_close(bank, model, sel),
    }
}

/// The step-by-step equivalence oracle: compares the ledger's derived
/// balance with the model's stored balance for every account both know.
pub fn check_balances(bank: &Bank, model: &RefModel) -> (r: bool)
    requires
        bank.wf(),
    ensures
        r == balances_agree(bank@, model@),
{
    let bn = bank.account_count();
    let mn = model.account_count();
    if bn != mn {
        return false;
    }
    let mut id: u64 = 0;
    while id < bn
        invariant
            bank.wf(),
            bn == bank@.accounts.len(),
            mn == model@.len(),
            bn == mn,
            id <= bn,
            forall|j: u64| j < id ==> model@[j as int].balance == #[trigger] balance_in(bank@, j),
        decreases bn - id,
    {
        let lb = match bank.balance(id) {
            Ok(b) => b,
            Err(_) => {
                return false;
            },
        };
        let mb = model.balance(id);
        if lb != mb {
            return false;
        }
        id = id + 1;
    }
    true
}

/// Drives one random walk: filters each candidate, applies the accepted
/// ones to both the ledger and the reference model, and checks after
/// every step that the two report the same balances. The check can never
/// fail — that is the point — and the final ledger agrees with the
/// specification-level fold of the accepted candidates.
pub fn run_trial(candidates: &Vec<Transition>) -> (r: (Bank, bool))
    ensures
        r.1,
        r.0.wf(),
        agree(r.0@, model_run(candidates@, candidates@.len() as int)),
{
    let mut bank = Bank::new();
    let mut model = RefModel::new();
    proof {
        assert(model@ =~= model_run(candidates@, 0));
    }
    let n = candidates.len();
    let mut i: usize = 0;
    while i < n
        invariant
            bank.wf(),
            agree(bank@, model@),
            n == candidates@.len(),
            i <= n,
            model@ == model_run(candidates@, i as int),
        decreases n - i,
    {
        let t = candidates[i];
        if accepts(&model, &t) {
            let ok = apply_accepted(&mut bank, &mut model, t);
            if !ok {
                return (bank, false);
            }
            let agreed = check_balances(&bank, &model);
            if !agreed {
                return (bank, false);
            }
        }
        i = i + 1;
    }
    (bank, true)
}

/// The whole pipeline on raw randomness: generates one candidate
/// transition per raw step, then runs the walk — filter, apply to both
/// sides, compare — over the generated candidates.
pub fn run_walk(raw: &Vec<RawStep>) -> (r: (Bank, bool))
    ensures
        r.1,
        r.0.wf(),
        agree(
            r.0@,
            model_run(
                raw@.map_values(|w: RawStep| spec_generate(w.kind, w.sel_a, w.sel_b, w.amount)),
                raw@.len() as int,
            ),
        ),
{
    let mut cands: Vec<Transition> = Vec::new();
    let n = raw.len();
    let mut i: usize = 0;
    while i < n
        invariant
            n == raw@.len(),
            i <= n,
            cands@.len() == i,
            forall|j: int|
                0 <= j < i ==> cands@[j] == spec_generate(
                    #[trigger] raw@[j].kind,
                    raw@[j].sel_a,
                    raw@[j].sel_b,
                    raw@[j].amount,
                ),
        decreases n - i,
    {
        let w = raw[i];
        let t = generate(w.kind, w.sel_a, w.sel_b, w.amount);
        cands.push(t);
        i = i + 1;
    }
    proof {
        assert(cands@ =~= raw@.map_values(
            |w: RawStep| spec_generate(w.kind, w.sel_a, w.sel_b, w.amount),
        ));
    }
    run_trial(&cands)
}

} // verus!
