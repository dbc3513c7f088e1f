use bank::{
    Bank, LedgerError, RawStep, RefModel, Transition, accepts, check_balances, generate, run_trial,
    run_walk,
};

#[test]
fn generator_covers_every_kind() {
    assert_eq!(generate(0, 2, 0, 0), Transition::Open { allow_overdraft: true });
    assert_eq!(generate(0, 3, 0, 0), Transition::Open { allow_overdraft: false });
    assert_eq!(generate(1, 7, 0, 99), Transition::Deposit { sel: 7, amount: 100 });
    assert_eq!(generate(2, 4, 0, 0), Transition::Withdraw { sel: 4, amount: 1 });
    assert_eq!(
        generate(3, 5, 6, 999),
        Transition::Transfer { from_sel: 5, to_sel: 6, amount: 1000 }
    );
    assert_eq!(generate(4, 8, 0, 0), Transition::Freeze { sel: 8 });
    assert_eq!(generate(5, 9, 0, 0), Transition::Unfreeze { sel: 9 });
    assert_eq!(generate(6, 1, 0, 0), Transition::Close { sel: 1 });
    // The kind selector wraps modulo the number of operation kinds.
    assert_eq!(generate(8, 2, 0, 41), Transition::Deposit { sel: 2, amount: 42 });
    // The amount selector wraps modulo the cap, staying in 1..=1000.
    assert_eq!(generate(1, 0, 0, 1000), Transition::Deposit { sel: 0, amount: 1 });
}

#[test]
fn filter_requires_an_account() {
    let model = RefModel::new();
    assert!(accepts(&model, &Transition::Open { allow_overdraft: false }));
    assert!(!accepts(&model, &Transition::Deposit { sel: 0, amount: 10 }));
    assert!(!accepts(&model, &Transition::Withdraw { sel: 0, amount: 10 }));
    assert!(!accepts(&model, &Transition::Transfer { from_sel: 0, to_sel: 1, amount: 10 }));
    assert!(!accepts(&model, &Transition::Freeze { sel: 0 }));
    assert!(!accepts(&model, &Transition::Unfreeze { sel: 0 }));
    assert!(!accepts(&model, &Transition::Close { sel: 0 }));
}

#[test]
fn filter_requires_distinct_transfer_ends() {
    let mut model = RefModel::new();
    model.open(false);
    // With one account every selector resolves to it: never distinct.
    assert!(!accepts(&model, &Transition::Transfer { from_sel: 0, to_sel: 1, amount: 1 }));
    model.open(false);
    model.deposit(0, 5);
    assert!(accepts(&model, &Transition::Transfer { from_sel: 0, to_sel: 1, amount: 5 }));
    // Selectors resolve modulo the account count: 2 and 4 both name account 0.
    assert!(!accepts(&model, &Transition::Transfer { from_sel: 2, to_sel: 4, amount: 1 }));
}

#[test]
fn filter_enforces_flags_and_funds() {
    let mut model = RefModel::new();
    model.open(false);
    assert!(accepts(&model, &Transition::Deposit { sel: 0, amount: 10 }));
    assert!(!accepts(&model, &Transition::Deposit { sel: 0, amount: 0 }));
    assert!(!accepts(&model, &Transition::Withdraw { sel: 0, amount: 1 }));
    model.deposit(0, 10);
    assert!(accepts(&model, &Transition::Withdraw { sel: 0, amount: 10 }));
    assert!(!accepts(&model, &Transition::Withdraw { sel: 0, amount: 11 }));
    model.freeze(0);
    assert!(!accepts(&model, &Transition::Deposit { sel: 0, amount: 10 }));
    assert!(!accepts(&model, &Transition::Withdraw { sel: 0, amount: 1 }));
    assert!(accepts(&model, &Transition::Freeze { sel: 0 }));
    model.unfreeze(0);
    assert!(accepts(&model, &Transition::Deposit { sel: 0, amount: 10 }));
    model.close(0);
    assert!(!accepts(&model, &Transition::Deposit { sel: 0, amount: 10 }));
    assert!(!accepts(&model, &Transition::Freeze { sel: 0 }));
    assert!(!accepts(&model, &Transition::Close { sel: 0 }));
}

#[test]
fn filter_accepts_overdraft_when_permitted() {
    let mut model = RefModel::new();
    model.open(true);
    assert!(accepts(&model, &Transition::Withdraw { sel: 0, amount: 5 }));
    let mut strict = RefModel::new();
    strict.open(false);
    assert!(!accepts(&strict, &Transition::Withdraw { sel: 0, amount: 5 }));
}

#[test]
fn filter_rejects_overflowing_arithmetic() {
    let mut model = RefModel::new();
    model.open(false);
    model.deposit(0, i64::MAX as u64);
    assert!(!accepts(&model, &Transition::Deposit { sel: 0, amount: 1 }));
    assert!(accepts(&model, &Transition::Withdraw { sel: 0, amount: 1 }));

    let mut deep = RefModel::new();
    deep.open(true);
    // An overdraft-permitted account may fall exactly to the lower machine
    // bound, and no further.
    assert!(accepts(&deep, &Transition::Withdraw { sel: 0, amount: 1 << 63 }));
    assert!(!accepts(&deep, &Transition::Withdraw { sel: 0, amount: (1 << 63) + 1 }));
}

#[test]
fn oracle_spots_a_diverging_pair() {
    let mut b = Bank::new();
    let mut m = RefModel::new();
    // Different account counts diverge.
    m.open(false);
    assert!(!check_balances(&b, &m));
    // Same count, same balances: agree.
    b.open(false);
    assert!(check_balances(&b, &m));
    // Same count, different balance: diverge.
    assert_eq!(b.deposit(0, 5), Ok(()));
    assert!(!check_balances(&b, &m));
    m.deposit(0, 5);
    assert!(check_balances(&b, &m));
}

#[test]
fn trial_applies_accepted_and_skips_rejected() {
    let candidates = vec![
        // Rejected: no account exists yet.
        Transition::Withdraw { sel: 0, amount: 10 },
        Transition::Open { allow_overdraft: false },
        Transition::Deposit { sel: 0, amount: 100 },
        Transition::Open { allow_overdraft: false },
        Transition::Transfer { from_sel: 0, to_sel: 1, amount: 40 },
        // Rejected: insufficient funds on the source.
        Transition::Transfer { from_sel: 1, to_sel: 0, amount: 1000 },
    ];
    let (bank, agreed) = run_trial(&candidates);
    assert!(agreed);
    assert_eq!(bank.account_count(), 2);
    assert_eq!(bank.balance(0), Ok(60));
    assert_eq!(bank.balance(1), Ok(40));
}

#[test]
fn trial_with_freeze_and_close() {
    let candidates = vec![
        Transition::Open { allow_overdraft: false },
        Transition::Deposit { sel: 0, amount: 30 },
        Transition::Freeze { sel: 0 },
        // Rejected: the only account is frozen.
        Transition::Deposit { sel: 0, amount: 30 },
        Transition::Unfreeze { sel: 0 },
        Transition::Deposit { sel: 0, amount: 12 },
        Transition::Close { sel: 0 },
        // Rejected: the only account is closed.
        Transition::Withdraw { sel: 0, amount: 1 },
    ];
    let (mut bank, agreed) = run_trial(&candidates);
    assert!(agreed);
    assert_eq!(bank.balance(0), Ok(42));
    assert_eq!(bank.deposit(0, 1), Err(LedgerError::AccountClosed));
}

#[test]
fn empty_trial_agrees() {
    let candidates: Vec<Transition> = Vec::new();
    let (bank, agreed) = run_trial(&candidates);
    assert!(agreed);
    assert_eq!(bank.account_count(), 0);
}

#[test]
fn walk_from_raw_words() {
    let raw = vec![
        // Opens an account without overdraft permission (odd selector).
        RawStep { kind: 0, sel_a: 1, sel_b: 0, amount: 0 },
        // Deposits 100 on it.
        RawStep { kind: 1, sel_a: 0, sel_b: 0, amount: 99 },
        // Withdraws 40.
        RawStep { kind: 2, sel_a: 0, sel_b: 0, amount: 39 },
        // Rejected by the filter: withdrawing 1000 would overdraw.
        RawStep { kind: 2, sel_a: 0, sel_b: 0, amount: 999 },
    ];
    let (bank, agreed) = run_walk(&raw);
    assert!(agreed);
    assert_eq!(bank.account_count(), 1);
    assert_eq!(bank.balance(0), Ok(60));
}

#[test]
fn long_pseudo_random_walk_never_diverges() {
    // A deterministic pseudo-random stream drives a few hundred steps.
    let mut state: u64 = 0x2545_f491_4f6c_dd1d;
    let mut raw = Vec::new();
    for _ in 0..400 {
        let mut next = || {
            state ^= state << 13;
            state ^= state >> 7;
            state ^= state << 17;
            state
        };
        let kind = next();
        let sel_a = next();
        let sel_b = next();
        let amount = next();
        raw.push(RawStep { kind, sel_a, sel_b, amount });
    }
    let (bank, agreed) = run_walk(&raw);
    assert!(agreed);
    // Every balance the walk left behind is reachable for audit.
    for id in 0..bank.account_count() {
        assert!(bank.balance(id).is_ok());
    }
}
