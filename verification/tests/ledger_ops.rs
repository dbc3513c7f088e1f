use bank::{Bank, LedgerError};

#[test]
fn open_issues_sequential_ids() {
    let mut b = Bank::new();
    let a0 = b.open(false);
    let a1 = b.open(true);
    let a2 = b.open(false);
    assert_eq!(a0, 0);
    assert_eq!(a1, 1);
    assert_eq!(a2, 2);
    assert!(a1 > a0 && a2 > a1);
}

#[test]
fn new_account_has_zero_balance() {
    let mut b = Bank::new();
    let a0 = b.open(false);
    assert_eq!(b.balance(a0), Ok(0));
}

#[test]
fn deposit_then_balance() {
    let mut b = Bank::new();
    let a0 = b.open(false);
    assert_eq!(b.deposit(a0, 100), Ok(()));
    assert_eq!(b.balance(a0), Ok(100));
}

#[test]
fn deposit_transfer_splits_balance() {
    let mut b = Bank::new();
    let a0 = b.open(false);
    assert_eq!(b.deposit(a0, 100), Ok(()));
    let a1 = b.open(false);
    assert_eq!(b.transfer(a0, a1, 40), Ok(()));
    assert_eq!(b.balance(a0), Ok(60));
    assert_eq!(b.balance(a1), Ok(40));
}

#[test]
fn overdraft_refused_on_empty_account() {
    let mut b = Bank::new();
    let a0 = b.open(false);
    assert_eq!(b.withdraw(a0, 1), Err(LedgerError::InsufficientFunds));
    assert_eq!(b.balance(a0), Ok(0));
}

#[test]
fn freeze_rejects_unfreeze_restores() {
    let mut b = Bank::new();
    let a0 = b.open(false);
    assert_eq!(b.freeze(a0), Ok(()));
    assert_eq!(b.deposit(a0, 10), Err(LedgerError::AccountFrozen));
    assert_eq!(b.unfreeze(a0), Ok(()));
    assert_eq!(b.deposit(a0, 10), Ok(()));
    assert_eq!(b.balance(a0), Ok(10));
}

#[test]
fn unknown_account_is_not_found() {
    let mut b = Bank::new();
    assert_eq!(b.balance(0), Err(LedgerError::AccountNotFound));
    assert_eq!(b.deposit(5, 10), Err(LedgerError::AccountNotFound));
    assert_eq!(b.withdraw(5, 10), Err(LedgerError::AccountNotFound));
    assert_eq!(b.freeze(5), Err(LedgerError::AccountNotFound));
    assert_eq!(b.unfreeze(5), Err(LedgerError::AccountNotFound));
    assert_eq!(b.close(5), Err(LedgerError::AccountNotFound));
    let a0 = b.open(false);
    assert_eq!(b.transfer(a0, 7, 1), Err(LedgerError::AccountNotFound));
    assert_eq!(b.transfer(7, a0, 1), Err(LedgerError::AccountNotFound));
}

#[test]
fn closed_account_is_immutable_but_queryable() {
    let mut b = Bank::new();
    let a0 = b.open(false);
    let a1 = b.open(false);
    assert_eq!(b.deposit(a0, 50), Ok(()));
    assert_eq!(b.close(a0), Ok(()));
    assert_eq!(b.deposit(a0, 1), Err(LedgerError::AccountClosed));
    assert_eq!(b.withdraw(a0, 1), Err(LedgerError::AccountClosed));
    assert_eq!(b.transfer(a0, a1, 1), Err(LedgerError::AccountClosed));
    assert_eq!(b.transfer(a1, a0, 1), Err(LedgerError::AccountClosed));
    assert_eq!(b.freeze(a0), Err(LedgerError::AccountClosed));
    assert_eq!(b.unfreeze(a0), Err(LedgerError::AccountClosed));
    assert_eq!(b.close(a0), Err(LedgerError::AccountClosed));
    assert_eq!(b.balance(a0), Ok(50));
}

#[test]
fn transfer_to_self_is_invalid() {
    let mut b = Bank::new();
    let a0 = b.open(false);
    assert_eq!(b.deposit(a0, 10), Ok(()));
    assert_eq!(b.transfer(a0, a0, 5), Err(LedgerError::InvalidTransfer));
    assert_eq!(b.balance(a0), Ok(10));
}

#[test]
fn overdraft_allowed_goes_negative() {
    let mut b = Bank::new();
    let a0 = b.open(true);
    assert_eq!(b.withdraw(a0, 5), Ok(()));
    assert_eq!(b.balance(a0), Ok(-5));
}

#[test]
fn overdraft_forbidden_stays_nonnegative() {
    let mut b = Bank::new();
    let a0 = b.open(false);
    assert_eq!(b.deposit(a0, 10), Ok(()));
    assert_eq!(b.withdraw(a0, 20), Err(LedgerError::InsufficientFunds));
    assert_eq!(b.withdraw(a0, 10), Ok(()));
    assert_eq!(b.balance(a0), Ok(0));
    assert_eq!(b.withdraw(a0, 1), Err(LedgerError::InsufficientFunds));
}

#[test]
fn transfer_conserves_the_sum() {
    let mut b = Bank::new();
    let a0 = b.open(false);
    let a1 = b.open(true);
    assert_eq!(b.deposit(a0, 70), Ok(()));
    assert_eq!(b.deposit(a1, 30), Ok(()));
    let before = b.balance(a0).unwrap() + b.balance(a1).unwrap();
    assert_eq!(b.transfer(a1, a0, 45), Ok(()));
    let after = b.balance(a0).unwrap() + b.balance(a1).unwrap();
    assert_eq!(before, after);
    assert_eq!(b.balance(a0), Ok(115));
    assert_eq!(b.balance(a1), Ok(-15));
}

#[test]
fn transfer_with_insufficient_funds_is_refused() {
    let mut b = Bank::new();
    let a0 = b.open(false);
    let a1 = b.open(false);
    assert_eq!(b.deposit(a0, 10), Ok(()));
    assert_eq!(b.transfer(a0, a1, 20), Err(LedgerError::InsufficientFunds));
    assert_eq!(b.balance(a0), Ok(10));
    assert_eq!(b.balance(a1), Ok(0));
}

#[test]
fn frozen_account_blocks_transfers_both_ways() {
    let mut b = Bank::new();
    let a0 = b.open(false);
    let a1 = b.open(false);
    assert_eq!(b.deposit(a0, 100), Ok(()));
    assert_eq!(b.freeze(a1), Ok(()));
    assert_eq!(b.transfer(a0, a1, 10), Err(LedgerError::AccountFrozen));
    assert_eq!(b.transfer(a1, a0, 10), Err(LedgerError::AccountFrozen));
    assert_eq!(b.withdraw(a1, 1), Err(LedgerError::AccountFrozen));
    assert_eq!(b.balance(a0), Ok(100));
    assert_eq!(b.balance(a1), Ok(0));
}

#[test]
fn balance_derived_from_mixed_log() {
    let mut b = Bank::new();
    let a0 = b.open(true);
    let a1 = b.open(true);
    let a2 = b.open(true);
    assert_eq!(b.deposit(a0, 500), Ok(()));
    assert_eq!(b.deposit(a1, 200), Ok(()));
    assert_eq!(b.withdraw(a0, 120), Ok(()));
    assert_eq!(b.transfer(a0, a2, 80), Ok(()));
    assert_eq!(b.transfer(a1, a0, 25), Ok(()));
    assert_eq!(b.withdraw(a2, 100), Ok(()));
    // a0: +500 - 120 - 80 + 25 = 325; a1: +200 - 25 = 175; a2: +80 - 100 = -20.
    assert_eq!(b.balance(a0), Ok(325));
    assert_eq!(b.balance(a1), Ok(175));
    assert_eq!(b.balance(a2), Ok(-20));
}

#[test]
fn deposit_up_to_the_machine_limit() {
    let mut b = Bank::new();
    let a0 = b.open(false);
    let max = i64::MAX as u64;
    assert_eq!(b.deposit(a0, max), Ok(()));
    assert_eq!(b.balance(a0), Ok(i64::MAX));
    assert_eq!(b.withdraw(a0, max), Ok(()));
    assert_eq!(b.balance(a0), Ok(0));
}

#[test]
fn failed_operations_change_nothing() {
    let mut b = Bank::new();
    let a0 = b.open(false);
    assert_eq!(b.deposit(a0, 42), Ok(()));
    assert_eq!(b.withdraw(a0, 100), Err(LedgerError::InsufficientFunds));
    assert_eq!(b.transfer(a0, a0, 5), Err(LedgerError::InvalidTransfer));
    assert_eq!(b.deposit(9, 5), Err(LedgerError::AccountNotFound));
    assert_eq!(b.balance(a0), Ok(42));
    assert_eq!(b.account_count(), 1);
}
